//! The service against a small store in memory: devices come, are found, go
//! silent and are cleaned up.

use presence::channel_status::{channel_status, StatusStep};
use presence::devices::{
    available_devices, available_devices_by_capability, CapabilityStep, DevicesStep,
};
use presence::expiry::{start_expiry_watcher, ExpiryWatcher, WatcherAction, WatcherEvent};
use presence::heartbeat::{handle_heartbeat, resume_heartbeat, HeartbeatStep};
use presence::json::Json;
use presence::metrics::{device_metrics, MetricsError};
use presence::store::{members_key, StoreWrite};
use std::collections::{BTreeMap, BTreeSet};

#[derive(Clone, Debug, Default, PartialEq)]
struct Memory {
    texts: BTreeMap<String, String>,
    sets: BTreeMap<String, BTreeSet<String>>,
    expiries: BTreeMap<String, u64>,
}

impl Memory {
    /// Makes a write; tells whether it was made.
    fn write(&mut self, write: &StoreWrite) -> bool {
        match write {
            StoreWrite::Put { key, value } => {
                self.delete(key);
                self.texts.insert(key.clone(), value.clone());
            }
            StoreWrite::PutExpiring { key, value, seconds } => {
                self.delete(key);
                self.texts.insert(key.clone(), value.clone());
                self.expiries.insert(key.clone(), *seconds);
            }
            StoreWrite::PutIfAbsent { key, value, seconds } => {
                if self.texts.contains_key(key) || self.sets.contains_key(key) {
                    return false;
                }
                self.texts.insert(key.clone(), value.clone());
                self.expiries.insert(key.clone(), *seconds);
            }
            StoreWrite::AddMember { key, member } => {
                self.sets.entry(key.clone()).or_default().insert(member.clone());
            }
            StoreWrite::RemoveMember { key, member } => {
                let empty = match self.sets.get_mut(key) {
                    Some(set) => {
                        set.remove(member);
                        set.is_empty()
                    }
                    None => false,
                };
                if empty {
                    self.sets.remove(key);
                }
            }
            StoreWrite::Delete { key } => self.delete(key),
        }
        true
    }

    fn delete(&mut self, key: &str) {
        self.texts.remove(key);
        self.sets.remove(key);
        self.expiries.remove(key);
    }

    /// Lets time pass; what was due to expire before that is gone.
    fn pass(&mut self, seconds: u64) {
        let due: Vec<String> =
            self.expiries.iter().filter(|(_, left)| **left < seconds).map(|(k, _)| k.clone()).collect();
        for key in due {
            self.delete(&key);
        }
        for left in self.expiries.values_mut() {
            *left -= seconds;
        }
    }

    fn members(&self, key: &str) -> Vec<String> {
        self.sets.get(key).map(|s| s.iter().cloned().collect()).unwrap_or_default()
    }

    fn values(&self, keys: &[String]) -> Vec<Option<String>> {
        keys.iter().map(|k| self.texts.get(k).cloned()).collect()
    }
}

fn text(s: &str) -> Json {
    Json::Text(s.to_string())
}

fn call(channel: &str, capabilities: &[&str], metrics: Option<&str>) -> Option<Json> {
    let mut fields = vec![
        ("device_channel".to_string(), text(channel)),
        (
            "capabilities".to_string(),
            Json::Array(capabilities.iter().map(|c| text(c)).collect()),
        ),
    ];
    if let Some(sent) = metrics {
        fields.push(("metrics_text".to_string(), text(sent)));
    }
    Some(Json::Object(fields))
}

fn run(memory: &mut Memory, kwargs: Option<Json>) -> Result<Json, Json> {
    let mut step = handle_heartbeat(kwargs);
    loop {
        step = match step {
            HeartbeatStep::Perform(run) => {
                memory.write(run.current());
                resume_heartbeat(run, Ok(()))
            }
            HeartbeatStep::Reply(reply) => return reply,
        }
    }
}

fn beat(memory: &mut Memory, channel: &str, capabilities: &[&str]) -> Result<Json, Json> {
    run(memory, call(channel, capabilities, None))
}

fn metrics(memory: &Memory, channel: &str) -> Result<String, MetricsError> {
    let lookup = device_metrics(channel);
    lookup.answer(Ok(memory.values(&lookup.keys()))).map(|found| found.respond_to().body)
}

fn all(memory: &Memory) -> Vec<(String, Vec<String>)> {
    let devices = match available_devices(Ok(memory.members(members_key()))) {
        DevicesStep::Fetch(lookup) => lookup.answer(Ok(memory.values(&lookup.keys()))),
        DevicesStep::Answer(devices) => devices,
    };
    devices.into_iter().map(|d| (d.channel, d.capabilities)).collect()
}

fn with_capability(memory: &Memory, capability: &str) -> Vec<String> {
    match available_devices_by_capability(
        capability.to_string(),
        Ok(memory.members(members_key())),
    ) {
        CapabilityStep::Fetch(lookup) => lookup.answer(Ok(memory.values(&lookup.keys()))),
        CapabilityStep::Answer(channels) => channels,
    }
}

fn statuses(memory: &Memory, channels: &str) -> Vec<bool> {
    match channel_status(channels) {
        StatusStep::Fetch(lookup) => lookup.answer(Ok(memory.values(&lookup.keys()))).statuses,
        StatusStep::Answer(response) => response.statuses,
    }
}

/// Lets a key expire and a watcher that listens hear of it, until it listens
/// again.
fn expire(memory: &mut Memory, watcher: ExpiryWatcher, key: &str) -> ExpiryWatcher {
    memory.delete(key);
    let mut watcher = watcher.step(WatcherEvent::Received(key.to_string())).unwrap();
    loop {
        let event = match watcher.action() {
            WatcherAction::TakeLock(write) => WatcherEvent::LockReply(Ok(memory.write(&write))),
            WatcherAction::Perform(write) => {
                memory.write(write);
                WatcherEvent::Written(Ok(()))
            }
            WatcherAction::NextNotice => return watcher,
            _ => panic!("the watcher lost its connection"),
        };
        watcher = watcher.step(event).unwrap();
    }
}

fn listening() -> ExpiryWatcher {
    let mut watcher = start_expiry_watcher("redis://localhost".to_string());
    for _ in 0..3 {
        watcher = watcher.step(WatcherEvent::Attempted(true)).unwrap();
    }
    watcher
}

fn is_single(json: &Json, key: &str, value: &str) -> bool {
    match json {
        Json::Object(fields) => {
            fields.len() == 1
                && fields[0].0 == key
                && matches!(&fields[0].1, Json::Text(t) if t == value)
        }
        _ => false,
    }
}

#[test]
fn queries_tell_what_heartbeats_reported() {
    let mut memory = Memory::default();
    assert!(all(&memory).is_empty());
    let reply = beat(&mut memory, "presence-abc_rackmint", &["gpu", "camera"]);
    assert!(is_single(&reply.unwrap(), "status", "ok"));
    beat(&mut memory, "cam", &["camera", "say \"cheese\"\n"]).unwrap();
    assert_eq!(
        all(&memory),
        vec![
            ("cam".to_string(), vec!["camera".to_string(), "say \"cheese\"\n".to_string()]),
            (
                "presence-abc_rackmint".to_string(),
                vec!["gpu".to_string(), "camera".to_string()]
            ),
        ]
    );
    assert_eq!(with_capability(&memory, "gpu"), vec!["presence-abc_rackmint"]);
    assert_eq!(with_capability(&memory, "camera"), vec!["cam", "presence-abc_rackmint"]);
    assert_eq!(with_capability(&memory, "say \"cheese\"\n"), vec!["cam"]);
    assert!(with_capability(&memory, "cam").is_empty());
    assert_eq!(
        statuses(&memory, "cam, nobody ,presence-abc_rackmint"),
        vec![true, false, true]
    );
}

#[test]
fn heartbeat_writes_the_documented_keys() {
    let mut memory = Memory::default();
    beat(&mut memory, "d", &["gpu"]).unwrap();
    assert_eq!(memory.texts["d_capability"], "[\"gpu\"]");
    assert!(memory.texts["d_last_seen"].ends_with("+00:00"));
    assert_eq!(memory.expiries.len(), 1);
    assert_eq!(memory.expiries["d_last_seen"], 15);
    assert_eq!(memory.members("available_devices"), vec!["d"]);
}

#[test]
fn last_heartbeat_counts() {
    let mut memory = Memory::default();
    beat(&mut memory, "d", &["gpu"]).unwrap();
    beat(&mut memory, "d", &[]).unwrap();
    assert_eq!(all(&memory), vec![("d".to_string(), vec![])]);
    beat(&mut memory, "d", &["camera"]).unwrap();
    assert_eq!(all(&memory), vec![("d".to_string(), vec!["camera".to_string()])]);
}

#[test]
fn heartbeats_commute() {
    let mut one = Memory::default();
    beat(&mut one, "a", &["x"]).unwrap();
    beat(&mut one, "b", &["y"]).unwrap();
    let mut other = Memory::default();
    beat(&mut other, "b", &["y"]).unwrap();
    beat(&mut other, "a", &["x"]).unwrap();
    assert_eq!(all(&one), all(&other));
    assert_eq!(one.sets, other.sets);
    assert_eq!(one.expiries, other.expiries);
}

#[test]
fn expired_device_is_forgotten() {
    let mut memory = Memory::default();
    beat(&mut memory, "a", &["x"]).unwrap();
    let before = memory.clone();
    beat(&mut memory, "b", &["x"]).unwrap();
    let watcher = expire(&mut memory, listening(), "b_last_seen");
    assert_eq!(all(&memory), vec![("a".to_string(), vec!["x".to_string()])]);
    assert_eq!(with_capability(&memory, "x"), vec!["a"]);
    assert_eq!(statuses(&memory, "a,b"), vec![true, false]);
    assert_eq!(memory.texts["cleanup_lock:b"], "1");
    assert_eq!(memory.expiries["cleanup_lock:b"], 10);
    memory.delete("cleanup_lock:b");
    assert_eq!(memory, before);
    expire(&mut memory, watcher, "a_last_seen");
    assert!(all(&memory).is_empty());
}

#[test]
fn one_instance_cleans_up() {
    let mut memory = Memory::default();
    beat(&mut memory, "d", &["x"]).unwrap();
    let first = expire(&mut memory, listening(), "d_last_seen");
    // The device is back before the second instance hears of the expiry.
    beat(&mut memory, "d", &["y"]).unwrap();
    let second = listening()
        .step(WatcherEvent::Received("d_last_seen".to_string()))
        .unwrap();
    let taken = match second.action() {
        WatcherAction::TakeLock(write) => memory.write(&write),
        _ => panic!("no lock asked for"),
    };
    assert!(!taken);
    let second = second.step(WatcherEvent::LockReply(Ok(taken))).unwrap();
    assert!(matches!(second.action(), WatcherAction::NextNotice));
    assert_eq!(all(&memory), vec![("d".to_string(), vec!["y".to_string()])]);
    // Once the lock has expired it can be taken again.
    memory.delete("cleanup_lock:d");
    expire(&mut memory, first, "d_last_seen");
    assert!(all(&memory).is_empty());
}

#[test]
fn other_keys_expire_unnoticed() {
    let mut memory = Memory::default();
    beat(&mut memory, "d", &["x"]).unwrap();
    let before = all(&memory);
    expire(&mut memory, listening(), "cleanup_lock:d");
    expire(&mut memory, listening(), "session");
    assert_eq!(all(&memory), before);
}

#[test]
fn metrics_come_from_their_key() {
    let mut memory = Memory::default();
    beat(&mut memory, "d", &["metrics"]).unwrap();
    memory.texts.insert("metrics_d".to_string(), "up 1\n".to_string());
    assert_eq!(metrics(&memory, "d"), Ok("up 1\n".to_string()));
    memory.delete("metrics_d");
    assert_eq!(metrics(&memory, "d"), Err(MetricsError::NotFound));
}

#[test]
fn metrics_of_a_device_without_the_capability_are_not_found() {
    let mut memory = Memory::default();
    memory.texts.insert("metrics_dev1".to_string(), "up 1\n".to_string());
    memory.texts.insert("dev1_capability".to_string(), "[\"gpu\"]".to_string());
    memory.sets.entry("available_devices".to_string()).or_default().insert("dev1".to_string());
    assert_eq!(metrics(&memory, "dev1"), Err(MetricsError::NotFound));
}

#[test]
fn metrics_are_served_as_sent() {
    let mut memory = Memory::default();
    let sent = "# TYPE up gauge\nup{host=\"é\"} 1\n";
    let reply = run(&mut memory, call("d", &["metrics"], Some(sent)));
    assert!(is_single(&reply.unwrap(), "status", "ok"));
    assert_eq!(memory.texts["metrics_d"], sent);
    assert_eq!(memory.expiries["metrics_d"], 15);
    assert_eq!(metrics(&memory, "d"), Ok(sent.to_string()));
    // Other devices make no difference, nor does a heartbeat without metrics.
    run(&mut memory, call("e", &["metrics"], Some("up 0\n"))).unwrap();
    memory.pass(10);
    beat(&mut memory, "d", &["metrics"]).unwrap();
    assert_eq!(metrics(&memory, "d"), Ok(sent.to_string()));
    // Fifteen seconds after they were sent they are gone, and the device is not.
    memory.pass(6);
    assert_eq!(metrics(&memory, "d"), Err(MetricsError::NotFound));
    assert_eq!(statuses(&memory, "d"), vec![true]);
    // The last ones count.
    run(&mut memory, call("d", &["metrics"], Some("up 2\n"))).unwrap();
    run(&mut memory, call("d", &["metrics"], Some("up 3\n"))).unwrap();
    assert_eq!(metrics(&memory, "d"), Ok("up 3\n".to_string()));
    // Without the capability, or once cleaned up, there are none.
    run(&mut memory, call("d", &["gpu"], Some("up 4\n"))).unwrap();
    assert_eq!(metrics(&memory, "d"), Err(MetricsError::NotFound));
    run(&mut memory, call("d", &["metrics"], Some("up 5\n"))).unwrap();
    expire(&mut memory, listening(), "d_last_seen");
    assert_eq!(metrics(&memory, "d"), Err(MetricsError::NotFound));
}

#[test]
fn metrics_key_can_be_that_of_another_device() {
    let mut memory = Memory::default();
    beat(&mut memory, "metrics_x", &["gpu"]).unwrap();
    run(&mut memory, call("x_capability", &["metrics"], Some("[\"odd\"]"))).unwrap();
    assert_eq!(with_capability(&memory, "odd"), vec!["metrics_x"]);
    run(&mut memory, call("last_seen", &["metrics"], Some("up"))).unwrap();
    assert_eq!(statuses(&memory, "metrics"), vec![true]);
}

#[test]
fn heartbeat_counts_for_fifteen_seconds() {
    let mut memory = Memory::default();
    beat(&mut memory, "d", &["x"]).unwrap();
    memory.pass(14);
    beat(&mut memory, "e", &["x"]).unwrap();
    assert_eq!(statuses(&memory, "d,e"), vec![true, true]);
    memory.pass(2);
    assert_eq!(statuses(&memory, "d,e"), vec![false, true]);
    // Until the cleanup, the query still tells what was reported.
    assert_eq!(with_capability(&memory, "x"), vec!["d", "e"]);
}

#[test]
fn lock_is_free_again_after_ten_seconds() {
    let mut memory = Memory::default();
    let locking = listening().step(WatcherEvent::Received("d_last_seen".to_string())).unwrap();
    let mut tried = |memory: &mut Memory| match locking.action() {
        WatcherAction::TakeLock(write) => memory.write(&write),
        _ => panic!("no lock asked for"),
    };
    assert!(tried(&mut memory));
    memory.pass(5);
    assert!(!tried(&mut memory));
    beat(&mut memory, "d", &["x"]).unwrap();
    memory.pass(4);
    assert!(!tried(&mut memory));
    memory.pass(2);
    assert!(tried(&mut memory));
}

#[test]
fn expiries_are_cleaned_up_once() {
    let mut memory = Memory::default();
    for channel in ["a", "b", "c"] {
        beat(&mut memory, channel, &[channel]).unwrap();
    }
    memory.texts.insert("cleanup_lock:b".to_string(), "1".to_string());
    let mut watcher = listening();
    for key in ["a_last_seen", "b_last_seen", "c", "a_last_seen"] {
        watcher = expire(&mut memory, watcher, key);
    }
    assert_eq!(
        all(&memory),
        vec![
            ("b".to_string(), vec!["b".to_string()]),
            ("c".to_string(), vec!["c".to_string()]),
        ]
    );
    // A second cleanup changes nothing.
    memory.delete("cleanup_lock:a");
    watcher = expire(&mut memory, watcher, "a_last_seen");
    let before = memory.clone();
    memory.delete("cleanup_lock:a");
    expire(&mut memory, watcher, "a_last_seen");
    assert_eq!(memory, before);
}

#[test]
fn online_devices_are_known() {
    let mut memory = Memory::default();
    beat(&mut memory, "a", &["x"]).unwrap();
    beat(&mut memory, "b", &[]).unwrap();
    beat(&mut memory, "c", &["x"]).unwrap();
    memory.delete("a_last_seen");
    assert_eq!(statuses(&memory, "a,b,c"), vec![false, true, true]);
    assert_eq!(memory.members(members_key()), vec!["a", "b", "c"]);
    expire(&mut memory, listening(), "a_last_seen");
    assert_eq!(statuses(&memory, "a,b,c"), vec![false, true, true]);
    assert_eq!(memory.members(members_key()), vec!["b", "c"]);
}

#[test]
fn heartbeats_leave_locks_alone() {
    let mut memory = Memory::default();
    beat(&mut memory, "d", &["x"]).unwrap();
    expire(&mut memory, listening(), "d_last_seen");
    for channel in ["d", "cleanup", "cleanup_lock", ""] {
        beat(&mut memory, channel, &["y"]).unwrap();
    }
    assert_eq!(memory.texts["cleanup_lock:d"], "1");
    assert_eq!(memory.expiries["cleanup_lock:d"], 10);
    // A name that begins as the keys of locks do can name such a key.
    beat(&mut memory, "cleanup_lock:d", &["z"]).unwrap();
    assert_eq!(memory.texts["cleanup_lock:d_capability"], "[\"z\"]");
}

#[test]
fn lock_is_not_taken_from_what_a_device_holds() {
    // The lock key of `x_capability` is the capability key of `cleanup_lock:x`.
    let mut memory = Memory::default();
    beat(&mut memory, "cleanup_lock:x", &["gpu"]).unwrap();
    beat(&mut memory, "x_capability", &["cpu"]).unwrap();
    expire(&mut memory, listening(), "x_capability_last_seen");
    assert_eq!(with_capability(&memory, "gpu"), vec!["cleanup_lock:x"]);
    assert_eq!(with_capability(&memory, "cpu"), vec!["x_capability"]);
    // The cleanup of the one frees the lock of the other.
    let watcher = expire(&mut memory, listening(), "cleanup_lock:x_last_seen");
    expire(&mut memory, watcher, "x_capability_last_seen");
    assert!(all(&memory).is_empty());
    assert_eq!(memory.texts["cleanup_lock:x_capability"], "1");
}
