//! What a heartbeat leaves in the store.

use vstd::prelude::*;

use crate::expiry;
use crate::heartbeat;
use crate::json;
use crate::laws::changes;
use crate::laws::names;
use crate::model;
use crate::model::{Change, Store};
use crate::store;
use crate::store::Write;

verus! {

/// The store after a heartbeat without metrics, in one step.
pub open spec fn seen(
    store: Store,
    channel: Seq<char>,
    capabilities_json: Seq<char>,
    time: Seq<char>,
) -> Store {
    let stored = store.with_text(store::capability_key_of(channel), capabilities_json);
    let timed = stored.with_text(store::last_seen_key_of(channel), time).expiring(
        store::last_seen_key_of(channel),
        heartbeat::HEARTBEAT_TTL_SECS as nat,
    );
    timed.with_set(
        store::devices_key(),
        store.members(store::devices_key()).insert(channel),
    )
}

/// The store after a heartbeat, in one step.
pub open spec fn reported(
    store: Store,
    channel: Seq<char>,
    capabilities_json: Seq<char>,
    time: Seq<char>,
    metrics: Option<Seq<char>>,
) -> Store {
    match metrics {
        Some(text) => seen(store, channel, capabilities_json, time).with_text(
            store::metrics_key_of(channel),
            text,
        ).expiring(store::metrics_key_of(channel), heartbeat::HEARTBEAT_TTL_SECS as nat),
        None => seen(store, channel, capabilities_json, time),
    }
}

/// A heartbeat is recorded: its writes leave the capabilities, for good; the
/// time, for as long as a heartbeat counts; the device among the known ones; and
/// the metrics that it sent, for as long. Where it sent none, those of an earlier
/// heartbeat stay.
pub proof fn law_heartbeat_is_recorded(
    store: Store,
    channel: Seq<char>,
    capabilities_json: Seq<char>,
    time: Seq<char>,
    metrics: Option<Seq<char>>,
)
    requires
        store.text(store::devices_key()) is None,
    ensures
        store.after_all(heartbeat::heartbeat_writes(channel, capabilities_json, time, metrics))
            == Some(reported(store, channel, capabilities_json, time, metrics)),
        ({
            let after = reported(store, channel, capabilities_json, time, metrics);
            &&& after.text(store::capability_key_of(channel)) == Some(capabilities_json)
            &&& after.expiry(store::capability_key_of(channel)) is None
            &&& after.text(store::last_seen_key_of(channel)) == Some(time)
            &&& after.expiry(store::last_seen_key_of(channel)) == Some(15nat)
            &&& after.members(store::devices_key()) == store.members(
                store::devices_key(),
            ).insert(channel)
            &&& after.text(store::devices_key()) is None
            &&& after.expiry(store::devices_key()) == store.expiry(store::devices_key())
            &&& match metrics {
                Some(text) => {
                    &&& after.text(store::metrics_key_of(channel)) == Some(text)
                    &&& after.expiry(store::metrics_key_of(channel)) == Some(15nat)
                },
                None => {
                    &&& after.text(store::metrics_key_of(channel)) == store.text(
                        store::metrics_key_of(channel),
                    )
                    &&& after.expiry(store::metrics_key_of(channel)) == store.expiry(
                        store::metrics_key_of(channel),
                    )
                },
            }
        }),
{
    names::law_keys_of_kinds_differ(channel, channel);
    names::law_metrics_have_keys_of_their_own(channel, channel);
    reveal_with_fuel(Store::after_all, 5);
    let writes = heartbeat::heartbeat_writes(channel, capabilities_json, time, metrics);
    assert(writes.skip(1)[0] == writes[1]);
    assert(writes.skip(1).skip(1)[0] == writes[2]);
    if metrics is Some {
        assert(writes.skip(1).skip(1).skip(1)[0] == writes[3]);
    }
    let devices = store.members(store::devices_key()).insert(channel);
    assert(devices.contains(channel));
}

/// A heartbeat touches nothing but the keys that it writes, and of the set of
/// devices only its own membership. So the heartbeats of other devices, their
/// capabilities, their metrics and their membership stay as they were.
pub proof fn law_heartbeat_leaves_others_alone(
    store: Store,
    channel: Seq<char>,
    capabilities_json: Seq<char>,
    time: Seq<char>,
    metrics: Option<Seq<char>>,
    other: Seq<char>,
    key: Seq<char>,
)
    requires
        store.text(store::devices_key()) is None,
        other != channel,
        metrics is Some ==> names::clear_of(channel, other),
        key != store::capability_key_of(channel),
        key != store::last_seen_key_of(channel),
        key != store::devices_key(),
        metrics is Some ==> key != store::metrics_key_of(channel),
    ensures
        ({
            let after = reported(store, channel, capabilities_json, time, metrics);
            &&& after.text(key) == store.text(key)
            &&& after.members(key) == store.members(key)
            &&& after.expiry(key) == store.expiry(key)
            &&& after.text(store::capability_key_of(other)) == store.text(
                store::capability_key_of(other),
            )
            &&& after.text(store::last_seen_key_of(other)) == store.text(
                store::last_seen_key_of(other),
            )
            &&& after.expiry(store::last_seen_key_of(other)) == store.expiry(
                store::last_seen_key_of(other),
            )
            &&& names::clear_of(other, channel) ==> after.text(store::metrics_key_of(other))
                == store.text(store::metrics_key_of(other))
            &&& after.members(store::devices_key()).contains(other) == store.members(
                store::devices_key(),
            ).contains(other)
        }),
{
    names::law_keys_of_kinds_differ(channel, other);
    names::law_keys_of_kinds_differ(other, channel);
    names::law_keys_of_devices_differ(channel, other);
    names::law_metrics_have_keys_of_their_own(channel, other);
    names::law_metrics_have_keys_of_their_own(other, channel);
    let known = store.members(store::devices_key()).insert(channel);
    assert(known.contains(channel));
}

/// The last heartbeat counts: what an earlier one of the same device left
/// makes no difference, but for metrics where the last one sent none.
pub proof fn law_last_heartbeat_counts(
    store: Store,
    channel: Seq<char>,
    first_json: Seq<char>,
    first_time: Seq<char>,
    first_metrics: Option<Seq<char>>,
    json: Seq<char>,
    time: Seq<char>,
    metrics: Option<Seq<char>>,
)
    requires
        store.text(store::devices_key()) is None,
    ensures
        reported(
            reported(store, channel, first_json, first_time, first_metrics),
            channel,
            json,
            time,
            metrics,
        ) == reported(
            store,
            channel,
            json,
            time,
            if metrics is Some {
                metrics
            } else {
                first_metrics
            },
        ),
{
    names::law_keys_of_kinds_differ(channel, channel);
    names::law_metrics_have_keys_of_their_own(channel, channel);
    let known = store.members(store::devices_key()).insert(channel);
    assert(known.contains(channel));
    assert(known.insert(channel) =~= known);
    let twice = reported(
        reported(store, channel, first_json, first_time, first_metrics),
        channel,
        json,
        time,
        metrics,
    );
    let once = reported(
        store,
        channel,
        json,
        time,
        if metrics is Some {
            metrics
        } else {
            first_metrics
        },
    );
    assert(twice =~= once);
}

/// The heartbeats of two devices do not get in each other's way: they may be
/// recorded in either order.
pub proof fn law_heartbeats_commute(
    store: Store,
    a: Seq<char>,
    a_json: Seq<char>,
    a_time: Seq<char>,
    a_metrics: Option<Seq<char>>,
    b: Seq<char>,
    b_json: Seq<char>,
    b_time: Seq<char>,
    b_metrics: Option<Seq<char>>,
)
    requires
        store.text(store::devices_key()) is None,
        a != b,
        a_metrics is Some ==> names::clear_of(a, b),
        b_metrics is Some ==> names::clear_of(b, a),
    ensures
        reported(
            reported(store, a, a_json, a_time, a_metrics),
            b,
            b_json,
            b_time,
            b_metrics,
        ) == reported(
            reported(store, b, b_json, b_time, b_metrics),
            a,
            a_json,
            a_time,
            a_metrics,
        ),
{
    names::law_keys_of_kinds_differ(a, a);
    names::law_keys_of_kinds_differ(b, b);
    names::law_keys_of_kinds_differ(a, b);
    names::law_keys_of_kinds_differ(b, a);
    names::law_keys_of_devices_differ(a, b);
    names::law_metrics_have_keys_of_their_own(a, b);
    names::law_metrics_have_keys_of_their_own(b, a);
    let known = store.members(store::devices_key());
    assert(known.insert(a).contains(a));
    assert(known.insert(b).contains(b));
    assert(known.insert(a).insert(b).contains(a));
    assert(known.insert(a).insert(b) =~= known.insert(b).insert(a));
    let b_last = reported(
        reported(store, a, a_json, a_time, a_metrics),
        b,
        b_json,
        b_time,
        b_metrics,
    );
    let a_last = reported(
        reported(store, b, b_json, b_time, b_metrics),
        a,
        a_json,
        a_time,
        a_metrics,
    );
    assert(b_last.texts =~= a_last.texts);
    assert(b_last.sets =~= a_last.sets);
    assert(b_last.expiries =~= a_last.expiries);
}

/// Whether a heartbeat with `writes` still to be made is answered that all is
/// well (`true`) or with an error (`false`), when they have these outcomes;
/// none while it waits for another outcome.
pub open spec fn heartbeat_answer(writes: Seq<Write>, outcomes: Seq<bool>) -> Option<bool>
    decreases writes.len(),
{
    if writes.len() == 0 || outcomes.len() == 0 {
        None
    } else if store::rest_of(writes, outcomes[0]).len() == 0 {
        Some(outcomes[0])
    } else {
        heartbeat_answer(store::rest_of(writes, outcomes[0]), outcomes.skip(1))
    }
}

/// A heartbeat is answered that all is well just where all its writes have
/// been made, and with an error just where one of them failed.
pub proof fn law_heartbeat_is_acknowledged_once_recorded(writes: Seq<Write>, outcomes: Seq<bool>)
    requires
        writes.len() > 0,
    ensures
        heartbeat_answer(writes, outcomes) == Some(true) <==> model::made(writes, outcomes)
            == writes,
        heartbeat_answer(writes, outcomes) == Some(false) <==> {
            let n = model::made(writes, outcomes).len() as int;
            n < writes.len() && n < outcomes.len()
        },
    decreases writes.len(),
{
    changes::law_run_stops_at_the_first_failure(writes, outcomes);
    if outcomes.len() > 0 {
        let rest = store::rest_of(writes, outcomes[0]);
        let later = model::made(rest, outcomes.skip(1));
        if outcomes[0] && rest.len() > 0 {
            law_heartbeat_is_acknowledged_once_recorded(rest, outcomes.skip(1));
            changes::law_run_stops_at_the_first_failure(rest, outcomes.skip(1));
            assert(model::made(writes, outcomes) =~= seq![writes[0]] + later);
            assert((seq![writes[0]] + later).skip(1) =~= later);
            if later == rest {
                assert(seq![writes[0]] + rest =~= writes);
            }
        } else if outcomes[0] {
            assert(later =~= Seq::empty());
            assert(model::made(writes, outcomes) =~= writes);
        } else {
            assert(later =~= Seq::empty());
            assert(model::made(writes, outcomes).len() == 0);
        }
    }
}

/// The set of devices is a set, and each known device has capabilities that
/// can be read.
pub open spec fn consistent(store: Store) -> bool {
    &&& store.text(store::devices_key()) is None
    &&& forall|d: Seq<char>| #[trigger]
        store.members(store::devices_key()).contains(d) ==> readable(
            store.text(store::capability_key_of(d)),
        )
}

/// Tells whether `value` is the JSON of a list of strings.
pub open spec fn readable(value: Option<Seq<char>>) -> bool {
    match value {
        Some(text) => json::decoded_texts(text) is Some,
        None => false,
    }
}

/// Neither a heartbeat nor a cleanup leaves a known device without
/// capabilities that can be read, wherever it breaks off. The one exception is
/// where metrics go to the capability key of a known device and are not such
/// capabilities.
pub proof fn law_known_devices_keep_their_capabilities(
    store: Store,
    channel: Seq<char>,
    capabilities_json: Seq<char>,
    time: Seq<char>,
    metrics: Option<Seq<char>>,
    n: int,
)
    requires
        consistent(store),
        readable(Some(capabilities_json)),
        metrics is Some ==> readable(metrics) || forall|d: Seq<char>| #[trigger]
            store.members(store::devices_key()).contains(d) ==> store::metrics_key_of(channel)
                != store::capability_key_of(d),
    ensures
        ({
            let writes = heartbeat::heartbeat_writes(channel, capabilities_json, time, metrics);
            0 <= n <= writes.len() ==> {
                let after = store.after_all(writes.take(n));
                after is Some && consistent(after->0)
            }
        }),
        0 <= n <= 2 ==> {
            let after = store.after_all(expiry::cleanup_writes(channel).take(n));
            after is Some && consistent(after->0)
        },
{
    reveal_with_fuel(Store::after_all, 5);
    let writes = heartbeat::heartbeat_writes(channel, capabilities_json, time, metrics);
    let cleanup = expiry::cleanup_writes(channel);
    assert forall|d: Seq<char>| true implies {
        &&& #[trigger] store::capability_key_of(d) != store::last_seen_key_of(channel)
        &&& store::capability_key_of(d) != store::devices_key()
        &&& d != channel ==> store::capability_key_of(d) != store::capability_key_of(channel)
    } by {
        names::law_keys_of_kinds_differ(channel, d);
        names::law_keys_of_kinds_differ(d, d);
        if d != channel {
            names::law_keys_of_devices_differ(d, channel);
        }
    }
    names::law_keys_of_kinds_differ(channel, channel);
    names::law_metrics_have_keys_of_their_own(channel, channel);
    let known = store.members(store::devices_key());
    assert(known.insert(channel).contains(channel));
    if 0 <= n <= writes.len() {
        let w = writes.take(n);
        if n >= 1 {
            assert(w[0] == writes[0]);
        }
        if n >= 2 {
            assert(w.skip(1)[0] == writes[1]);
        }
        if n >= 3 {
            assert(w.skip(1).skip(1)[0] == writes[2]);
        }
        if n >= 4 {
            assert(w.skip(1).skip(1).skip(1)[0] == writes[3]);
        }
    }
    if 0 <= n <= 2 {
        let w = cleanup.take(n);
        if n >= 1 {
            assert(w[0] == cleanup[0]);
        }
        if n >= 2 {
            assert(w.skip(1)[0] == cleanup[1]);
        }
    }
}

/// Tells whether `change` leaves the capabilities of `channel` and its
/// membership among the known devices as they are: it writes neither, or comes to
/// nothing.
pub open spec fn spares(store: Store, change: Change, channel: Seq<char>) -> bool {
    &&& store.leaves(change, store::capability_key_of(channel))
    &&& change matches Change::Asked(write) ==> {
        ||| write.key() != store::devices_key()
        ||| store.changed(change) == store
        ||| write is AddMember
        ||| write matches Write::RemoveMember { member, .. } && member != channel
    }
}

/// Tells whether each of `changes`, when its turn comes, spares `channel`.
pub open spec fn spared(store: Store, changes: Seq<Change>, channel: Seq<char>) -> bool {
    forall|i: int|
        0 <= i < changes.len() ==> spares(
            store.through(changes.take(i)),
            #[trigger] changes[i],
            channel,
        )
}

/// The heartbeats and cleanups of other devices spare a device, and leave the
/// time of its last heartbeat and its metrics alone. So does every try to take a
/// lock: a key that the device holds cannot be taken as a lock.
pub proof fn law_others_spare_a_device(
    store: Store,
    channel: Seq<char>,
    other: Seq<char>,
    capabilities_json: Seq<char>,
    time: Seq<char>,
    metrics: Option<Seq<char>>,
    locked: Seq<char>,
)
    requires
        other != channel,
        metrics is Some ==> names::clear_of(other, channel),
    ensures
        ({
            let writes = heartbeat::heartbeat_writes(other, capabilities_json, time, metrics)
                + expiry::cleanup_writes(other);
            forall|i: int|
                0 <= i < writes.len() ==> {
                    let change = Change::Asked(#[trigger] writes[i]);
                    &&& spares(store, change, channel)
                    &&& store.leaves(change, store::last_seen_key_of(channel))
                    &&& names::clear_of(channel, other) ==> store.leaves(
                        change,
                        store::metrics_key_of(channel),
                    )
                }
        }),
        ({
            let change = Change::Asked(expiry::lock_write_of(locked));
            &&& store.holds(store::capability_key_of(channel)) || store::lock_key_of(locked)
                != store::capability_key_of(channel) ==> spares(store, change, channel)
            &&& store.holds(store::last_seen_key_of(channel)) || store::lock_key_of(locked)
                != store::last_seen_key_of(channel) ==> store.leaves(
                change,
                store::last_seen_key_of(channel),
            )
            &&& store.leaves(change, store::metrics_key_of(channel))
        }),
{
    names::law_keys_of_kinds_differ(channel, other);
    names::law_keys_of_kinds_differ(other, channel);
    names::law_keys_of_devices_differ(channel, other);
    names::law_metrics_have_keys_of_their_own(channel, other);
    names::law_metrics_have_keys_of_their_own(other, channel);
    names::law_locks_have_keys_of_their_own(channel, locked);
}

/// A device that is known stays so through changes that spare it, and its
/// capabilities stay as they are.
pub proof fn law_spared_device_is_kept(store: Store, channel: Seq<char>, changes: Seq<Change>)
    requires
        store.text(store::devices_key()) is None,
        store.expiry(store::devices_key()) is None,
        store.expiry(store::capability_key_of(channel)) is None,
        store.members(store::devices_key()).contains(channel),
        spared(store, changes, channel),
    ensures
        ({
            let later = store.through(changes);
            &&& later.text(store::devices_key()) is None
            &&& later.expiry(store::devices_key()) is None
            &&& later.members(store::devices_key()).contains(channel)
            &&& later.text(store::capability_key_of(channel)) == store.text(
                store::capability_key_of(channel),
            )
        }),
    decreases changes.len(),
{
    assert forall|i: int| 0 <= i < changes.len() implies store.through(changes.take(i)).leaves(
        #[trigger] changes[i],
        store::capability_key_of(channel),
    ) by {
        assert(spares(store.through(changes.take(i)), changes[i], channel));
    }
    changes::law_untouched_key_lasts(store, store::capability_key_of(channel), changes);
    if changes.len() > 0 {
        let before = changes.drop_last();
        assert forall|i: int| 0 <= i < before.len() implies spares(
            store.through(before.take(i)),
            #[trigger] before[i],
            channel,
        ) by {
            assert(before[i] == changes[i]);
            assert(before.take(i) =~= changes.take(i));
        }
        law_spared_device_is_kept(store, channel, before);
        let last = changes.len() - 1;
        assert(changes.take(last) =~= before);
        assert(spares(store.through(changes.take(last)), changes[last], channel));
        let known = store.through(before).members(store::devices_key());
        match changes.last() {
            Change::Asked(Write::AddMember { member, .. }) => {
                assert(known.insert(member).contains(channel));
            },
            Change::Asked(Write::RemoveMember { member, .. }) => {
                if member != channel {
                    assert(known.remove(member).contains(channel));
                }
            },
            _ => {},
        }
    }
}

/// The writes of a heartbeat are, in this order: the capabilities for good, the
/// time for fifteen seconds, the membership among the known devices, and the
/// metrics for fifteen seconds where there are any.
pub proof fn law_heartbeat_makes_these_writes(
    channel: Seq<char>,
    capabilities_json: Seq<char>,
    time: Seq<char>,
    metrics: Option<Seq<char>>,
)
    ensures
        ({
            let writes = heartbeat::heartbeat_writes(channel, capabilities_json, time, metrics);
            &&& writes.len() == if metrics is Some {
                4nat
            } else {
                3nat
            }
            &&& writes[0] == (Write::Put {
                key: channel + "_capability"@,
                value: capabilities_json,
            })
            &&& writes[1] == (Write::PutExpiring {
                key: channel + "_last_seen"@,
                value: time,
                seconds: 15,
            })
            &&& writes[2] == (Write::AddMember { key: "available_devices"@, member: channel })
            &&& metrics matches Some(text) ==> writes[3] == (Write::PutExpiring {
                key: "metrics_"@ + channel,
                value: text,
                seconds: 15,
            })
            &&& heartbeat::time_in(writes) == time
        }),
        heartbeat::HEARTBEAT_PROCEDURE@ == "handle_heartbeat"@,
{
}

} // verus!
