//! What the cleanup after a device does.

use vstd::prelude::*;

use crate::devices;
use crate::expiry;
use crate::heartbeat;
use crate::laws::changes;
use crate::laws::heartbeats;
use crate::laws::names;
use crate::laws::queries;
use crate::model;
use crate::model::{Change, Store};
use crate::store;
use crate::store::Write;

verus! {

/// The store after the cleanup of a device, in one step.
pub open spec fn cleaned(store: Store, device: Seq<char>) -> Store {
    store.with_set(
        store::devices_key(),
        store.members(store::devices_key()).remove(device),
    ).without(store::capability_key_of(device))
}

/// A cleanup takes the device out of the known ones, and its capabilities
/// out of the store; no query reports it any more, or hands on its metrics. It
/// touches nothing else.
pub proof fn law_cleanup_forgets_the_device(
    store: Store,
    device: Seq<char>,
    channels: Seq<Seq<char>>,
    other: Seq<char>,
    key: Seq<char>,
)
    requires
        store.text(store::devices_key()) is None,
        model::lists(channels, cleaned(store, device).members(store::devices_key())),
        other != device,
        key != store::devices_key(),
        key != store::capability_key_of(device),
    ensures
        store.after_all(expiry::cleanup_writes(device)) == Some(cleaned(store, device)),
        ({
            let after = cleaned(store, device);
            &&& after.members(store::devices_key()) == store.members(
                store::devices_key(),
            ).remove(device)
            &&& after.text(store::capability_key_of(device)) is None
            &&& forall|i: int|
                0 <= i < queries::answer(after, channels).len() ==> (#[trigger] queries::answer(
                    after,
                    channels,
                )[i]).channel != device
            &&& forall|c: Seq<char>|
                !(#[trigger] devices::offering(queries::answer(after, channels), c).contains(device))
            &&& queries::metrics_of(after, device) is None
            &&& after.text(key) == store.text(key)
            &&& after.members(key) == store.members(key)
            &&& after.expiry(key) == store.expiry(key)
            &&& after.text(store::capability_key_of(other)) == store.text(
                store::capability_key_of(other),
            )
        }),
{
    names::law_keys_of_kinds_differ(device, other);
    names::law_keys_of_kinds_differ(other, device);
    names::law_keys_of_devices_differ(device, other);
    reveal_with_fuel(Store::after_all, 3);
    let writes = expiry::cleanup_writes(device);
    assert(writes.skip(1)[0] == writes[1]);
    let after = cleaned(store, device);
    let rest = store.members(store::devices_key()).remove(device);
    assert(after.members(store::devices_key()) =~= rest);
    queries::law_query_reports_the_known_devices(after, channels);
    let told = queries::answer(after, channels);
    assert(!after.members(store::devices_key()).contains(device));
    assert forall|c: Seq<char>| !(#[trigger] devices::offering(told, c).contains(device)) by {
        queries::law_capability_query_selects(told, c);
    }
}

/// A second cleanup changes nothing.
pub proof fn law_second_cleanup_changes_nothing(store: Store, device: Seq<char>)
    ensures
        cleaned(cleaned(store, device), device) == cleaned(store, device),
{
    names::law_keys_of_kinds_differ(device, device);
    let rest = store.members(store::devices_key()).remove(device);
    assert(rest.remove(device) =~= rest);
    let once = cleaned(store, device);
    let twice = cleaned(once, device);
    assert(once.members(store::devices_key()) =~= rest);
    assert(twice.texts =~= once.texts);
    assert(twice.sets =~= once.sets);
    assert(twice.expiries =~= once.expiries);
}

/// A device that comes and goes leaves no trace: a first heartbeat, the expiry
/// of its time and of its metrics, and the cleanup after it bring back the store
/// as it was.
pub proof fn law_cleanup_undoes_a_first_heartbeat(
    store: Store,
    channel: Seq<char>,
    capabilities_json: Seq<char>,
    time: Seq<char>,
    metrics: Option<Seq<char>>,
)
    requires
        store.well_formed(),
        store.text(store::devices_key()) is None,
        !store.members(store::devices_key()).contains(channel),
        !store.holds(store::capability_key_of(channel)),
        !store.holds(store::last_seen_key_of(channel)),
        metrics is Some ==> !store.holds(store::metrics_key_of(channel)),
    ensures
        ({
            let silent = heartbeats::reported(
                store,
                channel,
                capabilities_json,
                time,
                metrics,
            ).without(store::last_seen_key_of(channel));
            match metrics {
                Some(_) => cleaned(silent.without(store::metrics_key_of(channel)), channel) == store,
                None => cleaned(silent, channel) == store,
            }
        }),
{
    names::law_keys_of_kinds_differ(channel, channel);
    names::law_metrics_have_keys_of_their_own(channel, channel);
    let known = store.members(store::devices_key());
    assert(known.insert(channel).contains(channel));
    assert(known.insert(channel).remove(channel) =~= known);
    let silent = heartbeats::reported(store, channel, capabilities_json, time, metrics).without(
        store::last_seen_key_of(channel),
    );
    let back = match metrics {
        Some(_) => cleaned(silent.without(store::metrics_key_of(channel)), channel),
        None => cleaned(silent, channel),
    };
    assert(back.texts =~= store.texts);
    assert(back.sets =~= store.sets);
    assert(back.expiries =~= store.expiries);
}

/// The devices that are online are known.
pub open spec fn knows_who_is_online(store: Store) -> bool {
    forall|d: Seq<char>| #[trigger]
        queries::online(store, d) ==> store.members(store::devices_key()).contains(d)
}

/// Every device that is online is known, so that the queries find it: a
/// heartbeat keeps this so, and the expiry of any key but that of the set of
/// devices, and the cleanup of a device that is not online. The one exception is
/// a heartbeat whose metrics go to the last-heartbeat key of a device that is not
/// known.
pub proof fn law_online_devices_are_known(
    store: Store,
    channel: Seq<char>,
    capabilities_json: Seq<char>,
    time: Seq<char>,
    metrics: Option<Seq<char>>,
    key: Seq<char>,
)
    requires
        knows_who_is_online(store),
        store.text(store::devices_key()) is None,
        metrics is Some ==> forall|d: Seq<char>| #[trigger]
            store::last_seen_key_of(d) == store::metrics_key_of(channel) ==> store.members(
                store::devices_key(),
            ).contains(d),
        key != store::devices_key(),
    ensures
        knows_who_is_online(
            heartbeats::reported(store, channel, capabilities_json, time, metrics),
        ),
        knows_who_is_online(store.without(key)),
        !queries::online(store, channel) ==> knows_who_is_online(cleaned(store, channel)),
{
    names::law_keys_of_kinds_differ(channel, channel);
    names::law_metrics_have_keys_of_their_own(channel, channel);
    let known = store.members(store::devices_key());
    assert(known.insert(channel).contains(channel));
    assert forall|d: Seq<char>| true implies {
        &&& #[trigger] store::last_seen_key_of(d) != store::capability_key_of(channel)
        &&& store::last_seen_key_of(d) != store::devices_key()
        &&& d != channel ==> store::last_seen_key_of(d) != store::last_seen_key_of(channel)
    } by {
        names::law_keys_of_kinds_differ(d, channel);
        if d != channel {
            names::law_keys_of_devices_differ(d, channel);
        }
    }
    let beaten = heartbeats::reported(store, channel, capabilities_json, time, metrics);
    assert(beaten.members(store::devices_key()) == known.insert(channel));
    assert forall|d: Seq<char>| #[trigger] queries::online(beaten, d) implies beaten.members(
        store::devices_key(),
    ).contains(d) by {
        if d != channel && !known.contains(d) {
            assert(!queries::online(store, d));
        }
    }
    let expired = store.without(key);
    assert forall|d: Seq<char>| #[trigger] queries::online(expired, d) implies expired.members(
        store::devices_key(),
    ).contains(d) by {
        assert(queries::online(store, d));
    }
    let forgotten = cleaned(store, channel);
    if !queries::online(store, channel) {
        assert forall|d: Seq<char>| #[trigger]
            queries::online(forgotten, d) implies forgotten.members(
            store::devices_key(),
        ).contains(d) by {
            assert(queries::online(store, d));
            assert(known.remove(channel).contains(d));
        }
    }
}

/// Tells whether `change` does not free the cleanup lock of `device`: it does
/// not remove the key of the lock, nor have it expire in less than ten seconds.
pub open spec fn keeps_lock(change: Change, device: Seq<char>) -> bool {
    match change {
        Change::Asked(Write::Delete { key }) => key != store::lock_key_of(device),
        Change::Asked(Write::PutExpiring { key, seconds, .. }) => key != store::lock_key_of(device)
            || seconds >= 10,
        _ => true,
    }
}

/// Of the instances that try to take the cleanup lock of a device, the first
/// one takes it and no other does for ten seconds, whatever else happens to the
/// store, as long as nothing frees the lock; a heartbeat never does, and a
/// cleanup only where the lock key is the capability key of its device. If the
/// key is left alone, the lock can be taken again afterwards.
pub proof fn law_cleanup_lock_is_exclusive(store: Store, device: Seq<char>, changes: Seq<Change>)
    requires
        store.takes(expiry::lock_write_of(device)),
    ensures
        ({
            let locked = store.changed(Change::Asked(expiry::lock_write_of(device)));
            let later = locked.through(changes);
            &&& locked.holds(store::lock_key_of(device))
            &&& model::seconds_in(changes) < 10 && (forall|i: int|
                0 <= i < changes.len() ==> keeps_lock(#[trigger] changes[i], device)) ==> {
                &&& !later.takes(expiry::lock_write_of(device))
                &&& later.changed(Change::Asked(expiry::lock_write_of(device))) == later
            }
            &&& model::seconds_in(changes) > 10 && model::untouched(
                locked,
                changes,
                store::lock_key_of(device),
            ) ==> later.takes(expiry::lock_write_of(device))
        }),
{
    let locked = store.changed(Change::Asked(expiry::lock_write_of(device)));
    if model::seconds_in(changes) < 10 && (forall|i: int|
        0 <= i < changes.len() ==> keeps_lock(#[trigger] changes[i], device)) {
        lemma_lock_outlasts(locked, device, changes);
    }
    if model::untouched(locked, changes, store::lock_key_of(device)) {
        changes::law_untouched_key_lasts(locked, store::lock_key_of(device), changes);
    }
}

/// No write of a heartbeat frees a cleanup lock, nor does a try to take one. A
/// cleanup frees one only where its key is the capability key of the device.
pub proof fn law_locks_are_kept(
    device: Seq<char>,
    channel: Seq<char>,
    capabilities_json: Seq<char>,
    time: Seq<char>,
    metrics: Option<Seq<char>>,
    locked: Seq<char>,
)
    ensures
        ({
            let writes = heartbeat::heartbeat_writes(channel, capabilities_json, time, metrics);
            forall|i: int|
                0 <= i < writes.len() ==> keeps_lock(Change::Asked(#[trigger] writes[i]), device)
        }),
        keeps_lock(Change::Asked(expiry::lock_write_of(locked)), device),
        store::capability_key_of(channel) != store::lock_key_of(device) ==> {
            let writes = expiry::cleanup_writes(channel);
            forall|i: int|
                0 <= i < writes.len() ==> keeps_lock(Change::Asked(#[trigger] writes[i]), device)
        },
{
}

proof fn lemma_lock_outlasts(store: Store, device: Seq<char>, changes: Seq<Change>)
    requires
        store.text(store::lock_key_of(device)) is Some,
        store.lasts(store::lock_key_of(device), 10),
        model::seconds_in(changes) <= 10,
        forall|i: int| 0 <= i < changes.len() ==> keeps_lock(#[trigger] changes[i], device),
    ensures
        store.through(changes).text(store::lock_key_of(device)) is Some,
        store.through(changes).lasts(
            store::lock_key_of(device),
            (10 - model::seconds_in(changes)) as nat,
        ),
    decreases changes.len(),
{
    if changes.len() > 0 {
        let before = changes.drop_last();
        assert forall|i: int| 0 <= i < before.len() implies keeps_lock(
            #[trigger] before[i],
            device,
        ) by {
            assert(before[i] == changes[i]);
        }
        lemma_lock_outlasts(store, device, before);
        assert(keeps_lock(changes[changes.len() - 1], device));
    }
}

} // verus!
