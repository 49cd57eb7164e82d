use presence::expiry::{
    cleanup_device, expired_device, lock_write, start_expiry_watcher, ExpiryWatcher,
    WatcherAction, WatcherEvent, WatcherPhase,
};
use presence::store::{StoreWrite, WriteProgress};

fn after(events: Vec<WatcherEvent>) -> ExpiryWatcher {
    let mut watcher = start_expiry_watcher("redis://store".to_string());
    for event in events {
        watcher = watcher.step(event).unwrap();
    }
    watcher
}

fn attempts(n: usize) -> Vec<WatcherEvent> {
    (0..n).map(|_| WatcherEvent::Attempted(true)).collect()
}

fn listening_then(events: Vec<WatcherEvent>) -> ExpiryWatcher {
    let mut all = attempts(3);
    all.extend(events);
    after(all)
}

fn received(key: &str) -> WatcherEvent {
    WatcherEvent::Received(key.to_string())
}

#[test]
fn watcher_opens_connects_and_subscribes() {
    match after(vec![]).action() {
        WatcherAction::OpenClient(url) => assert_eq!(url, "redis://store"),
        _ => panic!("opens no client"),
    }
    assert!(matches!(after(attempts(1)).action(), WatcherAction::Connect));
    match after(attempts(2)).action() {
        WatcherAction::Subscribe(pattern) => assert_eq!(pattern, "__keyevent@0__:expired"),
        _ => panic!("does not subscribe"),
    }
    assert!(matches!(after(attempts(3)).action(), WatcherAction::NextNotice));
}

#[test]
fn failures_lead_to_another_try() {
    for n in 0..3 {
        let mut events = attempts(n);
        events.push(WatcherEvent::Attempted(false));
        let watcher = after(events);
        assert!(matches!(watcher.action(), WatcherAction::Rest(2)));
        let watcher = watcher.step(WatcherEvent::Rested).unwrap();
        match watcher.action() {
            WatcherAction::OpenClient(url) => assert_eq!(url, "redis://store"),
            _ => panic!("does not start again"),
        }
    }
    let ended = listening_then(vec![WatcherEvent::Ended]);
    assert!(matches!(ended.action(), WatcherAction::Rest(2)));
}

#[test]
fn only_heartbeats_that_expire_matter() {
    for event in [
        received("session"),
        received("_last_seen2"),
        received("d_capability"),
        received("last_seen"),
        WatcherEvent::Unreadable,
    ] {
        assert!(matches!(listening_then(vec![event]).action(), WatcherAction::NextNotice));
    }
    match listening_then(vec![received("d_last_seen")]).action() {
        WatcherAction::TakeLock(StoreWrite::PutIfAbsent { key, value, seconds }) => {
            assert_eq!((key.as_str(), value.as_str(), seconds), ("cleanup_lock:d", "1", 10));
        }
        _ => panic!("takes no lock"),
    }
}

#[test]
fn cleanup_needs_the_lock() {
    for reply in [Ok(false), Err("down".to_string())] {
        let watcher =
            listening_then(vec![received("d_last_seen"), WatcherEvent::LockReply(reply)]);
        assert!(matches!(watcher.action(), WatcherAction::NextNotice));
    }
    let watcher =
        listening_then(vec![received("d_last_seen"), WatcherEvent::LockReply(Ok(true))]);
    match watcher.action() {
        WatcherAction::Perform(StoreWrite::RemoveMember { key, member }) => {
            assert_eq!((key.as_str(), member.as_str()), ("available_devices", "d"));
        }
        _ => panic!("does not clean up"),
    }
    let watcher = watcher.step(WatcherEvent::Written(Ok(()))).unwrap();
    match watcher.action() {
        WatcherAction::Perform(StoreWrite::Delete { key }) => assert_eq!(key, "d_capability"),
        _ => panic!("keeps the capabilities"),
    }
    let watcher = watcher.step(WatcherEvent::Written(Ok(()))).unwrap();
    assert!(matches!(watcher.action(), WatcherAction::NextNotice));
}

#[test]
fn cleanup_ends_at_the_first_failure() {
    let watcher = listening_then(vec![
        received("d_last_seen"),
        WatcherEvent::LockReply(Ok(true)),
        WatcherEvent::Written(Err("down".to_string())),
    ]);
    assert!(matches!(watcher.phase, WatcherPhase::Listening));
}

#[test]
fn events_out_of_place_are_turned_away() {
    assert!(after(vec![]).step(WatcherEvent::Rested).is_none());
    assert!(after(vec![]).step(received("d_last_seen")).is_none());
    assert!(listening_then(vec![]).step(WatcherEvent::Attempted(true)).is_none());
    assert!(listening_then(vec![]).step(WatcherEvent::LockReply(Ok(true))).is_none());
    assert!(listening_then(vec![received("d_last_seen")])
        .step(WatcherEvent::Written(Ok(())))
        .is_none());
}

#[test]
fn expired_key_names_its_device() {
    assert_eq!(expired_device("d_last_seen"), Some("d".to_string()));
    assert_eq!(expired_device("_last_seen"), Some(String::new()));
    assert_eq!(expired_device("é_last_seen_last_seen"), Some("é_last_seen".to_string()));
    assert_eq!(expired_device("d_last_see"), None);
    assert_eq!(expired_device(""), None);
}

#[test]
fn cleanup_and_lock_are_laid_out() {
    let run = cleanup_device("x");
    assert!(matches!(run.current(), StoreWrite::RemoveMember { member, .. } if member == "x"));
    let run = match run.advance(Ok(())) {
        WriteProgress::Next(run) => run,
        _ => panic!("nothing left"),
    };
    assert!(matches!(run.current(), StoreWrite::Delete { key } if key == "x_capability"));
    assert!(matches!(run.advance(Ok(())), WriteProgress::Finished));
    assert!(matches!(
        cleanup_device("x").advance(Err("down".to_string())),
        WriteProgress::Aborted(message) if message == "down"
    ));
    assert!(matches!(
        lock_write("x"),
        StoreWrite::PutIfAbsent { key, .. } if key == "cleanup_lock:x"
    ));
}
