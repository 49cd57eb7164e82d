//! What a watcher does.

use vstd::prelude::*;

use crate::expiry;
use crate::expiry::{Event, Phase, WatcherAction, WatcherEvent, WatcherPhase};
use crate::laws::cleanups;
use crate::laws::names;
use crate::model::{Change, Store};
use crate::store;
use crate::store::{StoreWrite, Write};

verus! {

/// A key that expires names a device just where it is the last-heartbeat key
/// of that device.
pub proof fn law_expired_key_names_its_device(key: Seq<char>, device: Seq<char>)
    ensures
        expiry::device_in(key) == Some(device) <==> key == store::last_seen_key_of(device),
{
    let suffix = store::LAST_SEEN_SUFFIX@;
    if expiry::device_in(key) == Some(device) {
        assert(key =~= device + suffix);
    }
    if key == store::last_seen_key_of(device) {
        assert(key.subrange(key.len() - suffix.len(), key.len() as int) =~= suffix);
        assert(key.take(key.len() - suffix.len()) =~= device);
    }
}

/// The phase of a watcher that has met `events` since it started.
pub open spec fn phase_after(events: Seq<Event>) -> Option<Phase>
    decreases events.len(),
{
    if events.len() == 0 {
        Some(Phase::Opening)
    } else {
        match phase_after(events.drop_last()) {
            Some(phase) => expiry::next_phase(phase, events.last()),
            None => None,
        }
    }
}

/// A watcher that goes for the cleanup lock of a device has just heard that
/// its last heartbeat expired.
pub proof fn law_lock_follows_expiry(events: Seq<Event>, device: Seq<char>)
    requires
        phase_after(events) == Some(Phase::Locking { device }),
    ensures
        events.len() > 0,
        events.last() == Event::Received(store::last_seen_key_of(device)),
        phase_after(events.drop_last()) == Some(Phase::Listening),
{
    match events.last() {
        Event::Received(key) => law_expired_key_names_its_device(key, device),
        _ => {},
    }
}

/// A watcher cleans up after a device only when it has heard that its last
/// heartbeat expired and has then taken the cleanup lock; and it goes from one
/// write of the cleanup to the next only when the one before was made.
pub proof fn law_cleanup_follows_expiry_and_lock(
    events: Seq<Event>,
    device: Seq<char>,
    writes: Seq<Write>,
)
    requires
        phase_after(events) == Some(Phase::Cleaning { device, writes }),
    ensures
        1 <= writes.len() <= 2,
        writes == expiry::cleanup_writes(device).skip(2 - writes.len()),
        ({
            let lock = events.len() - 1 - (2 - writes.len());
            &&& lock >= 1
            &&& events[lock - 1] == Event::Received(store::last_seen_key_of(device))
            &&& events[lock] == Event::LockReply(Some(true))
            &&& forall|i: int|
                lock < i < events.len() ==> #[trigger] events[i] == Event::Written(true)
        }),
    decreases events.len(),
{
    let before = events.drop_last();
    match phase_after(before) {
        Some(Phase::Locking { device: d }) => {
            law_lock_follows_expiry(before, d);
            assert(before.last() == events[events.len() - 2]);
            assert(expiry::cleanup_writes(device).skip(0) =~= expiry::cleanup_writes(device));
        },
        Some(Phase::Cleaning { device: d, writes: w }) => {
            law_cleanup_follows_expiry_and_lock(before, d, w);
            assert(w.skip(1) =~= expiry::cleanup_writes(device).skip(2 - writes.len()));
            assert(forall|i: int| 0 <= i < before.len() ==> before[i] == events[i]);
            let lock = events.len() - 1 - (2 - writes.len());
            assert(before[lock - 1] == events[lock - 1]);
            assert(before[lock] == events[lock]);
        },
        _ => {},
    }
}

/// What a store that does not fail makes of the action of `phase`, and what it
/// replies. Only the actions that write are its concern.
pub open spec fn replied(store: Store, phase: Phase) -> (Store, Option<Event>) {
    match phase {
        Phase::Locking { device } => (
            store.changed(Change::Asked(expiry::lock_write_of(device))),
            Some(Event::LockReply(Some(store.takes(expiry::lock_write_of(device))))),
        ),
        Phase::Cleaning { writes, .. } => (
            store.changed(Change::Asked(writes[0])),
            Some(Event::Written(store.after(writes[0]) is Some)),
        ),
        _ => (store, None),
    }
}

/// The store and the phase after at most `steps` writes of a watcher in
/// `phase`.
pub open spec fn settled(store: Store, phase: Phase, steps: nat) -> (Store, Phase)
    decreases steps,
{
    if steps == 0 {
        (store, phase)
    } else {
        match replied(store, phase) {
            (next, Some(event)) => match expiry::next_phase(phase, event) {
                Some(further) => settled(next, further, (steps - 1) as nat),
                None => (next, phase),
            },
            (_, None) => (store, phase),
        }
    }
}

/// The store when a watcher has dealt with the expiry of `key`: where that is
/// the last-heartbeat key of a device and the lock is free, the lock is taken and
/// the device cleaned up.
pub open spec fn handled(store: Store, key: Seq<char>) -> Store {
    match expiry::device_in(key) {
        Some(device) => if store.takes(expiry::lock_write_of(device)) {
            cleanups::cleaned(
                store.changed(Change::Asked(expiry::lock_write_of(device))),
                device,
            )
        } else {
            store
        },
        None => store,
    }
}

/// A watcher that listens and hears of an expiry deals with it in at most three
/// writes, and listens again.
pub proof fn law_watcher_deals_with_an_expiry(store: Store, key: Seq<char>)
    requires
        store.text(store::devices_key()) is None,
    ensures
        expiry::next_phase(Phase::Listening, Event::Received(key)) matches Some(phase) && settled(
            store,
            phase,
            3,
        ) == (handled(store, key), Phase::Listening),
{
    reveal_with_fuel(settled, 4);
    if let Some(device) = expiry::device_in(key) {
        names::law_locks_have_keys_of_their_own(device, device);
        names::law_keys_of_kinds_differ(device, device);
        let writes = expiry::cleanup_writes(device);
        assert(writes.skip(1)[0] == writes[1]);
        assert(writes.skip(1).len() == 1);
    }
}

/// The store when watchers have dealt with the expiry of `keys`, in order.
pub open spec fn handled_all(store: Store, keys: Seq<Seq<char>>) -> Store
    decreases keys.len(),
{
    if keys.len() == 0 {
        store
    } else {
        handled(handled_all(store, keys.drop_last()), keys.last())
    }
}

/// Tells whether the last-heartbeat key of `device` is among `keys`.
pub open spec fn expired(keys: Seq<Seq<char>>, device: Seq<char>) -> bool {
    keys.contains(store::last_seen_key_of(device))
}

/// Tells whether `device` is cleaned up when `keys` expire: its last-heartbeat
/// key is among them, and its lock is free when the turn of that key comes.
pub open spec fn forgotten(store: Store, keys: Seq<Seq<char>>, device: Seq<char>) -> bool
    decreases keys.len(),
{
    keys.len() > 0 && {
        ||| forgotten(store, keys.drop_last(), device)
        ||| keys.last() == store::last_seen_key_of(device) && handled_all(
            store,
            keys.drop_last(),
        ).takes(expiry::lock_write_of(device))
    }
}

/// Tells whether the capability key of `device` is the lock key of no device
/// whose last-heartbeat key is among `keys`.
pub open spec fn capabilities_apart(keys: Seq<Seq<char>>, device: Seq<char>) -> bool {
    forall|e: Seq<char>| #[trigger]
        expired(keys, e) ==> store::lock_key_of(e) != store::capability_key_of(device)
}

/// Tells whether the lock key of `device` is the capability key of no device
/// whose last-heartbeat key is among `keys`.
pub open spec fn lock_apart(keys: Seq<Seq<char>>, device: Seq<char>) -> bool {
    forall|e: Seq<char>| #[trigger]
        expired(keys, e) ==> store::capability_key_of(e) != store::lock_key_of(device)
}

/// When keys expire, just the devices that are cleaned up leave the known
/// devices and lose their capabilities; all others stay as they are. A device is
/// cleaned up just where its last-heartbeat key is among the keys and its lock
/// was free to begin with; and however often its key is reported, that is once,
/// since the lock is held from then on.
///
/// The names of keys set two bounds to this. A device whose capability key is
/// the lock key of an expired one may have the lock for its capabilities; and a
/// device whose lock key is the capability key of an expired one may have its
/// lock freed by that cleanup.
pub proof fn law_expiries_are_cleaned_up(store: Store, keys: Seq<Seq<char>>)
    requires
        store.text(store::devices_key()) is None,
    ensures
        ({
            let later = handled_all(store, keys);
            &&& later.text(store::devices_key()) is None
            &&& forall|d: Seq<char>| #[trigger]
                later.members(store::devices_key()).contains(d) <==> store.members(
                    store::devices_key(),
                ).contains(d) && !forgotten(store, keys, d)
            &&& forall|d: Seq<char>|
                #![trigger later.text(store::capability_key_of(d))]
                capabilities_apart(keys, d) ==> later.text(store::capability_key_of(d))
                    == if forgotten(store, keys, d) {
                    None
                } else {
                    store.text(store::capability_key_of(d))
                }
            &&& forall|d: Seq<char>|
                #![trigger forgotten(store, keys, d)]
                lock_apart(keys, d) ==> (forgotten(store, keys, d) <==> expired(keys, d)
                    && store.takes(expiry::lock_write_of(d)))
            &&& forall|d: Seq<char>|
                #![trigger later.takes(expiry::lock_write_of(d))]
                lock_apart(keys, d) ==> later.takes(expiry::lock_write_of(d)) == (store.takes(
                    expiry::lock_write_of(d),
                ) && !expired(keys, d))
        }),
    decreases keys.len(),
{
    if keys.len() > 0 {
        let before = keys.drop_last();
        let key = keys.last();
        law_expiries_are_cleaned_up(store, before);
        let mid = handled_all(store, before);
        assert forall|d: Seq<char>|
            #![trigger expired(keys, d)]
            #![trigger expired(before, d)]
            expired(keys, d) <==> expired(before, d) || store::last_seen_key_of(d) == key by {
            let k = store::last_seen_key_of(d);
            if before.contains(k) {
                let i = choose|i: int| 0 <= i < before.len() && before[i] == k;
                assert(keys[i] == k);
            }
            if keys.contains(k) && k != key {
                let i = choose|i: int| 0 <= i < keys.len() && keys[i] == k;
                assert(before[i] == k);
            }
            if k == key {
                assert(keys[keys.len() - 1] == k);
            }
        }
        assert forall|d: Seq<char>| (#[trigger] store::last_seen_key_of(d) == key) <==> (
        expiry::device_in(key) == Some(d)) by {
            law_expired_key_names_its_device(key, d);
        }
        assert(forall|d: Seq<char>|
            #![trigger lock_apart(keys, d)]
            lock_apart(keys, d) ==> lock_apart(before, d));
        assert(forall|d: Seq<char>|
            #![trigger capabilities_apart(keys, d)]
            capabilities_apart(keys, d) ==> capabilities_apart(before, d));
        if let Some(e) = expiry::device_in(key) {
            assert(expired(keys, e));
            if mid.takes(expiry::lock_write_of(e)) {
                lemma_one_expiry(mid, e);
            }
        }
        let later = handled_all(store, keys);
        assert forall|d: Seq<char>| #[trigger]
            later.members(store::devices_key()).contains(d) <==> store.members(
                store::devices_key(),
            ).contains(d) && !forgotten(store, keys, d) by {
            assert(mid.members(store::devices_key()).contains(d) <==> store.members(
                store::devices_key(),
            ).contains(d) && !forgotten(store, before, d));
            assert(store::last_seen_key_of(d) == key <==> expiry::device_in(key) == Some(d));
        }
        assert forall|d: Seq<char>|
            #![trigger later.text(store::capability_key_of(d))]
            capabilities_apart(keys, d) implies later.text(store::capability_key_of(d))
            == if forgotten(store, keys, d) {
            None
        } else {
            store.text(store::capability_key_of(d))
        } by {
            assert(mid.text(store::capability_key_of(d)) == if forgotten(store, before, d) {
                None
            } else {
                store.text(store::capability_key_of(d))
            });
            assert(store::last_seen_key_of(d) == key <==> expiry::device_in(key) == Some(d));
        }
        assert forall|d: Seq<char>|
            #![trigger forgotten(store, keys, d)]
            lock_apart(keys, d) implies (forgotten(store, keys, d) <==> expired(keys, d)
            && store.takes(expiry::lock_write_of(d))) by {
            assert(forgotten(store, before, d) <==> expired(before, d) && store.takes(
                expiry::lock_write_of(d),
            ));
            assert(mid.takes(expiry::lock_write_of(d)) == (store.takes(expiry::lock_write_of(d))
                && !expired(before, d)));
        }
        assert forall|d: Seq<char>|
            #![trigger later.takes(expiry::lock_write_of(d))]
            lock_apart(keys, d) implies later.takes(expiry::lock_write_of(d)) == (store.takes(
            expiry::lock_write_of(d),
        ) && !expired(keys, d)) by {
            assert(mid.takes(expiry::lock_write_of(d)) == (store.takes(expiry::lock_write_of(d))
                && !expired(before, d)));
            assert(store::last_seen_key_of(d) == key <==> expiry::device_in(key) == Some(d));
        }
    }
}

proof fn lemma_one_expiry(store: Store, device: Seq<char>)
    requires
        store.text(store::devices_key()) is None,
        store.takes(expiry::lock_write_of(device)),
    ensures
        ({
            let later = cleanups::cleaned(
                store.changed(Change::Asked(expiry::lock_write_of(device))),
                device,
            );
            &&& later.text(store::devices_key()) is None
            &&& later.members(store::devices_key()) == store.members(
                store::devices_key(),
            ).remove(device)
            &&& forall|d: Seq<char>|
                #![trigger later.text(store::capability_key_of(d))]
                store::lock_key_of(device) != store::capability_key_of(d) ==> later.text(
                    store::capability_key_of(d),
                ) == if d == device {
                    None
                } else {
                    store.text(store::capability_key_of(d))
                }
            &&& forall|d: Seq<char>|
                #![trigger later.takes(expiry::lock_write_of(d))]
                store::capability_key_of(device) != store::lock_key_of(d) ==> later.takes(
                    expiry::lock_write_of(d),
                ) == (store.takes(expiry::lock_write_of(d)) && d != device)
        }),
{
    names::law_locks_have_keys_of_their_own(device, device);
    names::law_keys_of_kinds_differ(device, device);
    let later = cleanups::cleaned(
        store.changed(Change::Asked(expiry::lock_write_of(device))),
        device,
    );
    let rest = store.members(store::devices_key()).remove(device);
    assert(later.members(store::devices_key()) =~= rest);
    assert forall|d: Seq<char>|
        #![trigger later.text(store::capability_key_of(d))]
        store::lock_key_of(device) != store::capability_key_of(d) implies later.text(
        store::capability_key_of(d),
    ) == if d == device {
        None
    } else {
        store.text(store::capability_key_of(d))
    } by {
        names::law_keys_of_kinds_differ(d, d);
        if d != device {
            names::law_keys_of_devices_differ(d, device);
        }
    }
    assert forall|d: Seq<char>|
        #![trigger later.takes(expiry::lock_write_of(d))]
        store::capability_key_of(device) != store::lock_key_of(d) implies later.takes(
        expiry::lock_write_of(d),
    ) == (store.takes(expiry::lock_write_of(d)) && d != device) by {
        names::law_locks_have_keys_of_their_own(device, d);
        if d != device {
            names::law_keys_of_devices_differ(d, device);
        }
    }
}

/// The model of a phase and that of an event say what they say; of a failure
/// only that it happened.
pub proof fn law_phases_and_events_are_modelled_as_they_are(
    phase: WatcherPhase,
    event: WatcherEvent,
)
    ensures
        match phase {
            WatcherPhase::Opening => phase@ == Phase::Opening,
            WatcherPhase::Connecting => phase@ == Phase::Connecting,
            WatcherPhase::Subscribing => phase@ == Phase::Subscribing,
            WatcherPhase::Listening => phase@ == Phase::Listening,
            WatcherPhase::Locking { device } => phase@ == (Phase::Locking { device: device@ }),
            WatcherPhase::Cleaning { device, run } => phase@ == (Phase::Cleaning {
                device: device@,
                writes: run@,
            }),
            WatcherPhase::Resting => phase@ == Phase::Resting,
        },
        match event {
            WatcherEvent::Attempted(done) => event@ == Event::Attempted(done),
            WatcherEvent::Received(key) => event@ == Event::Received(key@),
            WatcherEvent::Unreadable => event@ == Event::Unreadable,
            WatcherEvent::Ended => event@ == Event::Ended,
            WatcherEvent::LockReply(Ok(taken)) => event@ == Event::LockReply(Some(taken)),
            WatcherEvent::LockReply(Err(_)) => event@ == Event::LockReply(None),
            WatcherEvent::Written(outcome) => event@ == Event::Written(outcome is Ok),
            WatcherEvent::Rested => event@ == Event::Rested,
        },
{
}

/// What the watcher asks for is fixed by its phase, down to the keys and the
/// seconds: for the lock of a device, that the key `cleanup_lock:` followed by
/// the channel of the device is set to `1` for ten seconds unless it is there.
pub proof fn law_actions_are_spelled(action: WatcherAction, phase: Phase, address: Seq<char>)
    requires
        expiry::acts_on(action, phase, address),
    ensures
        match phase {
            Phase::Opening => action matches WatcherAction::OpenClient(url) && url@ == address,
            Phase::Connecting => action is Connect,
            Phase::Subscribing => action matches WatcherAction::Subscribe(pattern) && pattern@
                == "__keyevent@0__:expired"@,
            Phase::Listening => action is NextNotice,
            Phase::Locking { device } => {
                &&& action matches WatcherAction::TakeLock(write)
                &&& write matches StoreWrite::PutIfAbsent { key, value, seconds }
                &&& key@ == "cleanup_lock:"@ + device
                &&& value@ == "1"@
                &&& seconds == 10
            },
            Phase::Cleaning { writes, .. } => action matches WatcherAction::Perform(write)
                && write@ == writes[0],
            Phase::Resting => action matches WatcherAction::Rest(seconds) && seconds == 2,
        },
{
}

/// The writes of a cleanup are, in this order: the device leaves the known
/// devices, and its capability key goes.
pub proof fn law_cleanup_makes_these_writes(device: Seq<char>)
    ensures
        expiry::cleanup_writes(device) == seq![
            Write::RemoveMember { key: "available_devices"@, member: device },
            Write::Delete { key: device + "_capability"@ },
        ],
        expiry::lock_write_of(device) == (Write::PutIfAbsent {
            key: "cleanup_lock:"@ + device,
            value: "1"@,
            seconds: 10,
        }),
        expiry::device_in(device + "_last_seen"@) == Some(device),
{
    law_expired_key_names_its_device(device + "_last_seen"@, device);
}

/// The watcher gets to listen by opening, connecting and subscribing; when one
/// of these fails, or the notices end, it rests and opens anew.
pub proof fn law_watcher_connects_and_tries_again()
    ensures
        expiry::next_phase(Phase::Opening, Event::Attempted(true)) == Some(Phase::Connecting),
        expiry::next_phase(Phase::Connecting, Event::Attempted(true)) == Some(Phase::Subscribing),
        expiry::next_phase(Phase::Subscribing, Event::Attempted(true)) == Some(Phase::Listening),
        expiry::next_phase(Phase::Opening, Event::Attempted(false)) == Some(Phase::Resting),
        expiry::next_phase(Phase::Connecting, Event::Attempted(false)) == Some(Phase::Resting),
        expiry::next_phase(Phase::Subscribing, Event::Attempted(false)) == Some(Phase::Resting),
        expiry::next_phase(Phase::Listening, Event::Ended) == Some(Phase::Resting),
        expiry::next_phase(Phase::Resting, Event::Rested) == Some(Phase::Opening),
{
}

/// A watcher that listens goes for the lock of a device just where the
/// last-heartbeat key of that device has expired, and otherwise goes on
/// listening; it cleans up just where the lock was taken; and it listens again
/// after the last write of a cleanup, or after one that failed.
pub proof fn law_watcher_goes_from_notice_to_cleanup(
    key: Seq<char>,
    device: Seq<char>,
    taken: Option<bool>,
    write: Write,
    rest: Seq<Write>,
    done: bool,
)
    ensures
        expiry::next_phase(Phase::Listening, Event::Received(device + "_last_seen"@)) == Some(
            Phase::Locking { device },
        ),
        !"_last_seen"@.is_suffix_of(key) ==> expiry::next_phase(
            Phase::Listening,
            Event::Received(key),
        ) == Some(Phase::Listening),
        expiry::next_phase(Phase::Listening, Event::Unreadable) == Some(Phase::Listening),
        expiry::next_phase(Phase::Locking { device }, Event::LockReply(Some(true))) == Some(
            Phase::Cleaning {
                device,
                writes: seq![
                    Write::RemoveMember { key: "available_devices"@, member: device },
                    Write::Delete { key: device + "_capability"@ },
                ],
            },
        ),
        taken != Some(true) ==> expiry::next_phase(
            Phase::Locking { device },
            Event::LockReply(taken),
        ) == Some(Phase::Listening),
        expiry::next_phase(
            Phase::Cleaning { device, writes: seq![write] + rest },
            Event::Written(done),
        ) == Some(
            if done && rest.len() > 0 {
                Phase::Cleaning { device, writes: rest }
            } else {
                Phase::Listening
            },
        ),
{
    law_cleanup_makes_these_writes(device);
    assert((seq![write] + rest).skip(1) =~= rest);
}

/// A watcher takes no event that does not answer its action.
pub proof fn law_watcher_turns_other_events_away(phase: Phase, event: Event)
    ensures
        expiry::next_phase(phase, event) is Some <==> match phase {
            Phase::Opening => event is Attempted,
            Phase::Connecting => event is Attempted,
            Phase::Subscribing => event is Attempted,
            Phase::Listening => event is Received || event is Unreadable || event is Ended,
            Phase::Locking { .. } => event is LockReply,
            Phase::Cleaning { .. } => event is Written,
            Phase::Resting => event is Rested,
        },
{
}

/// What a store that does not fail makes of an action that writes, and what it
/// replies.
pub open spec fn obeyed(store: Store, action: WatcherAction) -> (Store, Event) {
    match action {
        WatcherAction::TakeLock(write) => (
            store.changed(Change::Asked(write@)),
            Event::LockReply(Some(store.takes(write@))),
        ),
        WatcherAction::Perform(write) => (
            store.changed(Change::Asked(write@)),
            Event::Written(store.after(write@) is Some),
        ),
        _ => (store, Event::Rested),
    }
}

/// A device that has gone silent is removed: a watcher that listens, hears that
/// the last-heartbeat key of the device has expired and does what it asks for,
/// listens again after three writes; where the lock of the device was free, the
/// device is then no longer among the known devices and its capability key is
/// gone, and no other device has left.
pub proof fn law_silent_device_is_removed(
    store: Store,
    device: Seq<char>,
    address: Seq<char>,
    lock: WatcherAction,
    first: WatcherAction,
    second: WatcherAction,
    other: Seq<char>,
)
    requires
        store.text("available_devices"@) is None,
        !store.holds("cleanup_lock:"@ + device),
        ({
            let hearing = expiry::next_phase(
                Phase::Listening,
                Event::Received(device + "_last_seen"@),
            );
            let (locked, taken) = obeyed(store, lock);
            let cleaning = expiry::next_phase(hearing->0, taken);
            let (removed, made) = obeyed(locked, first);
            let deleting = expiry::next_phase(cleaning->0, made);
            &&& hearing is Some ==> expiry::acts_on(lock, hearing->0, address)
            &&& cleaning is Some ==> expiry::acts_on(first, cleaning->0, address)
            &&& deleting is Some ==> expiry::acts_on(second, deleting->0, address)
        }),
    ensures
        ({
            let hearing = expiry::next_phase(
                Phase::Listening,
                Event::Received(device + "_last_seen"@),
            );
            let (locked, taken) = obeyed(store, lock);
            let cleaning = expiry::next_phase(hearing->0, taken);
            let (removed, made) = obeyed(locked, first);
            let deleting = expiry::next_phase(cleaning->0, made);
            let (after, deleted) = obeyed(removed, second);
            &&& hearing is Some && cleaning is Some && deleting is Some
            &&& expiry::next_phase(deleting->0, deleted) == Some(Phase::Listening)
            &&& taken == Event::LockReply(Some(true))
            &&& after.holds("cleanup_lock:"@ + device)
            &&& !after.members("available_devices"@).contains(device)
            &&& after.text(device + "_capability"@) is None
            &&& other != device ==> after.members("available_devices"@).contains(other)
                == store.members("available_devices"@).contains(other)
        }),
{
    law_cleanup_makes_these_writes(device);
    names::law_keys_are_spelled(device);
    names::law_keys_of_kinds_differ(device, device);
    names::law_locks_have_keys_of_their_own(device, device);
    assert((store::lock_key_of(device)).len() != store::capability_key_of(device).len()) by {
        reveal_strlit("cleanup_lock:");
        reveal_strlit("_capability");
    }
    let writes = expiry::cleanup_writes(device);
    assert(writes.skip(1)[0] == writes[1]);
    assert(writes.skip(1).len() == 1);
    let rest = store.members("available_devices"@).remove(device);
    assert(!rest.contains(device));
}

} // verus!
