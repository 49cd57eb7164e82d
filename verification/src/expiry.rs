//! The expiry watcher: a background task that hears of each key that expires
//! in the store and cleans up after the devices that have gone silent.
//!
//! The watcher is a state machine. [`ExpiryWatcher::action`] says what to do
//! in its present phase and [`ExpiryWatcher::step`] takes what came of it.

use vstd::prelude::*;

use crate::store::{capability_key, lock_key};
use crate::store::{StoreWrite, Write, WriteProgress, WriteRun};
use crate::store::{AVAILABLE_DEVICES_KEY, LAST_SEEN_SUFFIX};
use crate::text::strip_suffix;

verus! {

/// The pattern of the notices that a key has expired, in the default
/// database of the store.
pub const EXPIRED_PATTERN: &'static str = "__keyevent@0__:expired";

/// How many seconds to wait before trying to connect again.
pub const RETRY_SECS: u64 = 2;

/// After how many seconds a cleanup lock is given up.
pub const CLEANUP_LOCK_SECS: u64 = 10;

/// What a cleanup lock holds.
pub const CLEANUP_LOCK_VALUE: &'static str = "1";

/// The device whose last heartbeat the key `key` records, if it is such a
/// key.
pub open spec fn device_in(key: Seq<char>) -> Option<Seq<char>> {
    if LAST_SEEN_SUFFIX@.is_suffix_of(key) {
        Some(key.take(key.len() - LAST_SEEN_SUFFIX@.len()))
    } else {
        None
    }
}

/// Finds the device whose last heartbeat the key `key` records.
pub fn expired_device(key: &str) -> (r: Option<String>)
    ensures
        r.deep_view() == device_in(key@),
{
    match strip_suffix(key, LAST_SEEN_SUFFIX) {
        Some(device) => {
            assert(device@ =~= key@.take(key@.len() - LAST_SEEN_SUFFIX@.len()));
            Some(device)
        },
        None => None,
    }
}

/// The writes that clean up after a device, in order: it leaves the known
/// devices, then its capabilities go.
pub open spec fn cleanup_writes(device: Seq<char>) -> Seq<Write> {
    seq![
        Write::RemoveMember { key: crate::store::devices_key(), member: device },
        Write::Delete { key: crate::store::capability_key_of(device) },
    ]
}

/// Lays out the writes that clean up after a device.
pub fn cleanup_device(device_channel: &str) -> (r: WriteRun)
    ensures
        r@ == cleanup_writes(device_channel@),
{
    let mut writes: Vec<StoreWrite> = Vec::new();
    writes.push(
        StoreWrite::RemoveMember {
            key: AVAILABLE_DEVICES_KEY.to_owned(),
            member: device_channel.to_owned(),
        },
    );
    writes.push(StoreWrite::Delete { key: capability_key(device_channel) });
    assert(writes.deep_view() =~= cleanup_writes(device_channel@));
    WriteRun::new(writes)
}

/// The write that takes the cleanup lock of a device. It succeeds for one of
/// the instances that try.
pub open spec fn lock_write_of(device: Seq<char>) -> Write {
    Write::PutIfAbsent {
        key: crate::store::lock_key_of(device),
        value: CLEANUP_LOCK_VALUE@,
        seconds: CLEANUP_LOCK_SECS as nat,
    }
}

/// Lays out the write that takes the cleanup lock of a device.
pub fn lock_write(device_channel: &str) -> (r: StoreWrite)
    ensures
        r@ == lock_write_of(device_channel@),
{
    StoreWrite::PutIfAbsent {
        key: lock_key(device_channel),
        value: CLEANUP_LOCK_VALUE.to_owned(),
        seconds: CLEANUP_LOCK_SECS,
    }
}

/// What the watcher is about to do.
pub enum WatcherPhase {
    /// Open a client of the store.
    Opening,
    /// Connect the client.
    Connecting,
    /// Subscribe to the notices.
    Subscribing,
    /// Wait for the next notice.
    Listening,
    /// Take the cleanup lock of a device.
    Locking { device: String },
    /// Clean up after a device.
    Cleaning { device: String, run: WriteRun },
    /// Wait before opening a client again.
    Resting,
}

/// The model of a [`WatcherPhase`].
pub enum Phase {
    Opening,
    Connecting,
    Subscribing,
    Listening,
    Locking { device: Seq<char> },
    Cleaning { device: Seq<char>, writes: Seq<Write> },
    Resting,
}

impl View for WatcherPhase {
    type V = Phase;

    open spec fn view(&self) -> Phase {
        match *self {
            WatcherPhase::Opening => Phase::Opening,
            WatcherPhase::Connecting => Phase::Connecting,
            WatcherPhase::Subscribing => Phase::Subscribing,
            WatcherPhase::Listening => Phase::Listening,
            WatcherPhase::Locking { device } => Phase::Locking { device: device@ },
            WatcherPhase::Cleaning { device, run } => Phase::Cleaning {
                device: device@,
                writes: run@,
            },
            WatcherPhase::Resting => Phase::Resting,
        }
    }
}

/// What came of an action of the watcher.
pub enum WatcherEvent {
    /// The client was opened, connected or subscribed, or was not.
    Attempted(bool),
    /// A notice arrived; it names the key that expired.
    Received(String),
    /// A notice arrived that names no key.
    Unreadable,
    /// There will be no more notices on this connection.
    Ended,
    /// The store answered whether the lock was taken, or failed.
    LockReply(Result<bool, String>),
    /// A write of the cleanup was made, or failed.
    Written(Result<(), String>),
    /// The wait is over.
    Rested,
}

/// The model of a [`WatcherEvent`]. Of a failure only that it happened counts.
pub enum Event {
    Attempted(bool),
    Received(Seq<char>),
    Unreadable,
    Ended,
    LockReply(Option<bool>),
    Written(bool),
    Rested,
}

impl View for WatcherEvent {
    type V = Event;

    open spec fn view(&self) -> Event {
        match *self {
            WatcherEvent::Attempted(done) => Event::Attempted(done),
            WatcherEvent::Received(key) => Event::Received(key@),
            WatcherEvent::Unreadable => Event::Unreadable,
            WatcherEvent::Ended => Event::Ended,
            WatcherEvent::LockReply(Ok(taken)) => Event::LockReply(Some(taken)),
            WatcherEvent::LockReply(Err(_)) => Event::LockReply(None),
            WatcherEvent::Written(Ok(_)) => Event::Written(true),
            WatcherEvent::Written(Err(_)) => Event::Written(false),
            WatcherEvent::Rested => Event::Rested,
        }
    }
}

/// The phase that follows `phase` on `event`; none where the event does not
/// answer the action of the phase.
pub open spec fn next_phase(phase: Phase, event: Event) -> Option<Phase> {
    match (phase, event) {
        (Phase::Opening, Event::Attempted(done)) => Some(
            if done {
                Phase::Connecting
            } else {
                Phase::Resting
            },
        ),
        (Phase::Connecting, Event::Attempted(done)) => Some(
            if done {
                Phase::Subscribing
            } else {
                Phase::Resting
            },
        ),
        (Phase::Subscribing, Event::Attempted(done)) => Some(
            if done {
                Phase::Listening
            } else {
                Phase::Resting
            },
        ),
        (Phase::Listening, Event::Received(key)) => Some(
            match device_in(key) {
                Some(device) => Phase::Locking { device },
                None => Phase::Listening,
            },
        ),
        (Phase::Listening, Event::Unreadable) => Some(Phase::Listening),
        (Phase::Listening, Event::Ended) => Some(Phase::Resting),
        (Phase::Locking { device }, Event::LockReply(taken)) => Some(
            if taken == Some(true) {
                Phase::Cleaning { device, writes: cleanup_writes(device) }
            } else {
                Phase::Listening
            },
        ),
        (Phase::Cleaning { device, writes }, Event::Written(done)) => Some(
            if done && writes.len() > 1 {
                Phase::Cleaning { device, writes: writes.skip(1) }
            } else {
                Phase::Listening
            },
        ),
        (Phase::Resting, Event::Rested) => Some(Phase::Opening),
        _ => None,
    }
}

/// An action of the watcher.
pub enum WatcherAction<'a> {
    /// Open a client of the store at this address.
    OpenClient(&'a String),
    /// Connect the client for notices.
    Connect,
    /// Subscribe to notices of this pattern.
    Subscribe(&'static str),
    /// Wait for the next notice.
    NextNotice,
    /// Take a lock by this write, and learn whether it was taken.
    TakeLock(StoreWrite),
    /// Make this write.
    Perform(&'a StoreWrite),
    /// Wait for this many seconds.
    Rest(u64),
}

/// Tells whether `action` is what is to be done in `phase`, with the store at
/// `address`.
pub open spec fn acts_on(action: WatcherAction, phase: Phase, address: Seq<char>) -> bool {
    match phase {
        Phase::Opening => action matches WatcherAction::OpenClient(url) && url@ == address,
        Phase::Connecting => action is Connect,
        Phase::Subscribing => action matches WatcherAction::Subscribe(pattern) && pattern@
            == EXPIRED_PATTERN@,
        Phase::Listening => action is NextNotice,
        Phase::Locking { device } => action matches WatcherAction::TakeLock(write) && write@
            == lock_write_of(device),
        Phase::Cleaning { writes, .. } => action matches WatcherAction::Perform(write) && write@
            == writes[0],
        Phase::Resting => action matches WatcherAction::Rest(seconds) && seconds == RETRY_SECS,
    }
}

/// The watcher.
pub struct ExpiryWatcher {
    /// The address of the store.
    pub redis_url: String,
    /// What the watcher is about to do.
    pub phase: WatcherPhase,
}

/// A watcher of the store at `redis_url`, about to open its first client.
pub fn start_expiry_watcher(redis_url: String) -> (r: ExpiryWatcher)
    ensures
        r.redis_url == redis_url,
        r.phase@ == Phase::Opening,
{
    ExpiryWatcher { redis_url, phase: WatcherPhase::Opening }
}

impl ExpiryWatcher {
    /// What to do in the present phase.
    pub fn action(&self) -> (r: WatcherAction<'_>)
        ensures
            acts_on(r, self.phase@, self.redis_url@),
    {
        match &self.phase {
            WatcherPhase::Opening => WatcherAction::OpenClient(&self.redis_url),
            WatcherPhase::Connecting => WatcherAction::Connect,
            WatcherPhase::Subscribing => WatcherAction::Subscribe(EXPIRED_PATTERN),
            WatcherPhase::Listening => WatcherAction::NextNotice,
            WatcherPhase::Locking { device } => WatcherAction::TakeLock(
                lock_write(device.as_str()),
            ),
            WatcherPhase::Cleaning { run, .. } => WatcherAction::Perform(run.current()),
            WatcherPhase::Resting => WatcherAction::Rest(RETRY_SECS),
        }
    }

    /// Takes what came of the action of the present phase; nothing comes back
    /// where `event` does not answer that action.
    pub fn step(self, event: WatcherEvent) -> (r: Option<ExpiryWatcher>)
        ensures
            match next_phase(self.phase@, event@) {
                Some(phase) => {
                    &&& r matches Some(next)
                    &&& next.redis_url == self.redis_url
                    &&& next.phase@ == phase
                },
                None => r is None,
            },
    {
        let redis_url: String = self.redis_url;
        let phase: WatcherPhase = match (self.phase, event) {
            (WatcherPhase::Opening, WatcherEvent::Attempted(done)) => {
                if done {
                    WatcherPhase::Connecting
                } else {
                    WatcherPhase::Resting
                }
            },
            (WatcherPhase::Connecting, WatcherEvent::Attempted(done)) => {
                if done {
                    WatcherPhase::Subscribing
                } else {
                    WatcherPhase::Resting
                }
            },
            (WatcherPhase::Subscribing, WatcherEvent::Attempted(done)) => {
                if done {
                    WatcherPhase::Listening
                } else {
                    WatcherPhase::Resting
                }
            },
            (WatcherPhase::Listening, WatcherEvent::Received(key)) => {
                match expired_device(key.as_str()) {
                    Some(device) => WatcherPhase::Locking { device },
                    None => WatcherPhase::Listening,
                }
            },
            (WatcherPhase::Listening, WatcherEvent::Unreadable) => WatcherPhase::Listening,
            (WatcherPhase::Listening, WatcherEvent::Ended) => WatcherPhase::Resting,
            (WatcherPhase::Locking { device }, WatcherEvent::LockReply(Ok(taken))) => {
                if taken {
                    let run = cleanup_device(device.as_str());
                    WatcherPhase::Cleaning { device, run }
                } else {
                    WatcherPhase::Listening
                }
            },
            (WatcherPhase::Locking { .. }, WatcherEvent::LockReply(Err(_))) => {
                WatcherPhase::Listening
            },
            (WatcherPhase::Cleaning { device, run }, WatcherEvent::Written(outcome)) => {
                match run.advance(outcome) {
                    WriteProgress::Next(rest) => WatcherPhase::Cleaning { device, run: rest },
                    WriteProgress::Finished => WatcherPhase::Listening,
                    WriteProgress::Aborted(_) => WatcherPhase::Listening,
                }
            },
            (WatcherPhase::Resting, WatcherEvent::Rested) => WatcherPhase::Opening,
            _ => {
                return None;
            },
        };
        Some(ExpiryWatcher { redis_url, phase })
    }
}

} // verus!
