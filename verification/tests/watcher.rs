use telegramail::email::imap::{
    error_event, idle_should_stop, start, status_event, stop, IdleOutcome, WatchSlot, Watcher,
    WatcherAction, WatcherEvent,
};
use telegramail::email::events::EmailStatus;

#[test]
fn second_start_keeps_the_running_watcher() {
    let mut slot: WatchSlot<u32> = WatchSlot::new();
    assert!(start(&mut slot, 1));
    assert!(!start(&mut slot, 2));
    assert_eq!(slot.sender, Some(1));
    assert_eq!(stop(&mut slot), Some(1));
    assert_eq!(stop(&mut slot), None);
    assert!(start(&mut slot, 3));
    assert_eq!(slot.sender, Some(3));
}

#[test]
fn idle_stops_on_request_or_interrupt() {
    assert!(idle_should_stop(true, None));
    assert!(idle_should_stop(false, Some(IdleOutcome::ManualInterrupt)));
    assert!(!idle_should_stop(false, Some(IdleOutcome::NewData)));
    assert!(!idle_should_stop(false, Some(IdleOutcome::Timeout)));
    assert!(!idle_should_stop(false, None));
}

#[test]
fn backoff_doubles_up_to_five_minutes() {
    let mut w = Watcher::new();
    assert_eq!(w.step(WatcherEvent::StopFlag(false)), WatcherAction::RunSession);
    let mut waits = Vec::new();
    for _ in 0..9 {
        match w.step(WatcherEvent::SessionEnded(Err("down".to_owned()))) {
            WatcherAction::Reconnect { error, wait_secs } => {
                assert_eq!(error, "down");
                waits.push(wait_secs);
            }
            other => panic!("unexpected {other:?}"),
        }
        assert_eq!(w.step(WatcherEvent::SleepElapsed), WatcherAction::CheckStop);
        assert_eq!(w.step(WatcherEvent::StopFlag(false)), WatcherAction::RunSession);
    }
    assert_eq!(waits, vec![5, 10, 20, 40, 80, 160, 300, 300, 300]);
}

#[test]
fn stop_and_clean_end_finish_the_watcher() {
    let mut w = Watcher::new();
    assert_eq!(w.step(WatcherEvent::StopFlag(true)), WatcherAction::Finish);
    assert_eq!(w.step(WatcherEvent::StopFlag(false)), WatcherAction::Finish);

    let mut w = Watcher::new();
    w.step(WatcherEvent::StopFlag(false));
    assert_eq!(w.step(WatcherEvent::SessionEnded(Ok(()))), WatcherAction::Finish);

    let mut w = Watcher::new();
    w.step(WatcherEvent::StopFlag(false));
    w.step(WatcherEvent::SessionEnded(Err("x".to_owned())));
    assert_eq!(w.step(WatcherEvent::StopSignalled), WatcherAction::Finish);
}

#[test]
fn events_carry_their_fields() {
    let e = status_event(EmailStatus::Reconnecting, Some("boom".to_owned()));
    assert_eq!(e.status, EmailStatus::Reconnecting);
    assert_eq!(e.error.as_deref(), Some("boom"));
    assert_eq!(error_event("boom".to_owned()).message, "boom");
}
