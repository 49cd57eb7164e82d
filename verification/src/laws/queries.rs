//! What the queries tell.

use vstd::prelude::*;

use crate::channel_status;
use crate::devices;
use crate::devices::{Device, DeviceCapabilities};
use crate::heartbeat;
use crate::json;
use crate::json::Json;
use crate::laws::calls;
use crate::laws::changes;
use crate::laws::heartbeats;
use crate::laws::names;
use crate::metrics;
use crate::model;
use crate::model::{Change, Store};
use crate::store;

verus! {

/// The devices that a query reports when the members of the set of devices
/// come in the order `channels`.
pub open spec fn answer(store: Store, channels: Seq<Seq<char>>) -> Seq<Device> {
    devices::described(
        channels,
        devices::read_values(store.texts_at(store::capability_keys_of(channels))),
    )
}

/// A query reports the known devices, each once, in the order in which the
/// store names them. A device of which the store has no capabilities, or whose
/// capabilities cannot be read, is reported without any.
pub proof fn law_query_reports_the_known_devices(store: Store, channels: Seq<Seq<char>>)
    requires
        model::lists(channels, store.members(store::devices_key())),
    ensures
        answer(store, channels).len() == channels.len(),
        forall|i: int|
            #![trigger answer(store, channels)[i]]
            0 <= i < channels.len() ==> {
                &&& answer(store, channels)[i].channel == channels[i]
                &&& answer(store, channels)[i].capabilities == match devices::read_value(
                    store.text(store::capability_key_of(channels[i])),
                ) {
                    Some(list) => list,
                    None => Seq::empty(),
                }
            },
        forall|channel: Seq<char>|
            #![trigger store.members(store::devices_key()).contains(channel)]
            store.members(store::devices_key()).contains(channel) <==> exists|i: int|
                0 <= i < channels.len() && #[trigger] answer(store, channels)[i].channel
                    == channel,
        forall|i: int, j: int|
            0 <= i < j < channels.len() ==> (#[trigger] answer(store, channels)[i]).channel != (
            #[trigger] answer(store, channels)[j]).channel,
{
    assert forall|channel: Seq<char>|
        #![trigger store.members(store::devices_key()).contains(channel)]
        store.members(store::devices_key()).contains(channel) implies exists|i: int|
        0 <= i < channels.len() && #[trigger] answer(store, channels)[i].channel == channel by {
        assert(channels.contains(channel));
        let i = choose|i: int| 0 <= i < channels.len() && channels[i] == channel;
        assert(answer(store, channels)[i].channel == channel);
    }
    assert forall|channel: Seq<char>|
        #![trigger store.members(store::devices_key()).contains(channel)]
        (exists|i: int|
            0 <= i < channels.len() && #[trigger] answer(store, channels)[i].channel
                == channel) implies store.members(store::devices_key()).contains(channel) by {
        let i = choose|i: int|
            0 <= i < channels.len() && #[trigger] answer(store, channels)[i].channel == channel;
        assert(channels[i] == channel);
        assert(channels.contains(channel));
    }
}

/// The query for a capability gives the channels of just those devices that
/// the query for all devices reports with that capability.
pub proof fn law_capability_query_selects(devices: Seq<Device>, capability: Seq<char>)
    ensures
        forall|channel: Seq<char>|
            #[trigger] devices::offering(devices, capability).contains(channel) <==> exists|i: int|
                0 <= i < devices.len() && (#[trigger] devices[i]).channel == channel
                    && devices[i].capabilities.contains(capability),
{
    let wanted = |d: Device| d.capabilities.contains(capability);
    let kept = devices.filter(wanted);
    assert forall|channel: Seq<char>| #[trigger]
        devices::offering(devices, capability).contains(channel) implies exists|i: int|
        0 <= i < devices.len() && (#[trigger] devices[i]).channel == channel
            && devices[i].capabilities.contains(capability) by {
        let k = choose|k: int|
            0 <= k < kept.len() && devices::offering(devices, capability)[k] == channel;
        assert(kept[k].channel == channel);
        assert(wanted(kept[k]));
        assert(kept.contains(kept[k]));
        devices.lemma_filter_contains_rev(wanted, kept[k]);
        let i = choose|i: int| 0 <= i < devices.len() && devices[i] == kept[k];
        assert(devices[i].channel == channel);
    }
    assert forall|channel: Seq<char>|
        (exists|i: int|
            0 <= i < devices.len() && (#[trigger] devices[i]).channel == channel
                && devices[i].capabilities.contains(
                capability,
            )) implies #[trigger] devices::offering(devices, capability).contains(channel) by {
        let i = choose|i: int|
            0 <= i < devices.len() && (#[trigger] devices[i]).channel == channel
                && devices[i].capabilities.contains(capability);
        assert(wanted(devices[i]));
        assert(kept.contains(devices[i]));
        let k = choose|k: int| 0 <= k < kept.len() && kept[k] == devices[i];
        assert(devices::offering(devices, capability)[k] == channel);
    }
}

/// What a heartbeat reports is what a query tells: the device is reported
/// once, with the capabilities of its heartbeat, and it is found by each of them
/// and by no other. This holds from the heartbeat on, through whatever spares the
/// device: until its next heartbeat, or until it is cleaned up.
pub proof fn law_query_tells_what_the_heartbeat_reported(
    store: Store,
    channel: Seq<char>,
    capabilities: Seq<Seq<char>>,
    capabilities_json: Seq<char>,
    time: Seq<char>,
    metrics: Option<Seq<char>>,
    changes: Seq<Change>,
    channels: Seq<Seq<char>>,
)
    requires
        store.text(store::devices_key()) is None,
        store.expiry(store::devices_key()) is None,
        json::decoded_texts(capabilities_json) == Some(capabilities),
        heartbeats::spared(
            heartbeats::reported(store, channel, capabilities_json, time, metrics),
            changes,
            channel,
        ),
        model::lists(
            channels,
            heartbeats::reported(store, channel, capabilities_json, time, metrics).through(
                changes,
            ).members(store::devices_key()),
        ),
    ensures
        ({
            let told = answer(
                heartbeats::reported(store, channel, capabilities_json, time, metrics).through(
                    changes,
                ),
                channels,
            );
            &&& told.contains(Device { channel, capabilities })
            &&& forall|i: int|
                0 <= i < told.len() && (#[trigger] told[i]).channel == channel ==> told[i]
                    == (Device { channel, capabilities })
            &&& forall|c: Seq<char>|
                #[trigger] devices::offering(told, c).contains(channel) <==> capabilities.contains(
                    c,
                )
        }),
{
    let after = heartbeats::reported(store, channel, capabilities_json, time, metrics);
    let later = after.through(changes);
    let told = answer(later, channels);
    heartbeats::law_heartbeat_is_recorded(store, channel, capabilities_json, time, metrics);
    heartbeats::law_spared_device_is_kept(after, channel, changes);
    law_query_reports_the_known_devices(later, channels);
    assert(later.members(store::devices_key()).contains(channel));
    let at = choose|i: int|
        0 <= i < channels.len() && #[trigger] told[i].channel == channel;
    assert(told[at] =~= Device { channel, capabilities });
    assert forall|i: int|
        0 <= i < told.len() && (#[trigger] told[i]).channel == channel implies told[i] == (Device {
        channel,
        capabilities,
    }) by {
        assert(told[i] =~= Device { channel, capabilities });
    }
    assert forall|c: Seq<char>| #[trigger]
        devices::offering(told, c).contains(channel) <==> capabilities.contains(c) by {
        law_capability_query_selects(told, c);
        assert(told[at].channel == channel);
    }
}

/// Tells whether the store has a last heartbeat of `channel`.
pub open spec fn online(store: Store, channel: Seq<char>) -> bool {
    store.text(store::last_seen_key_of(channel)) is Some
}

/// The status query tells of each channel asked for, in the order of the
/// question, whether it is online.
pub proof fn law_status_query_tells_who_is_online(store: Store, channels: Seq<Seq<char>>)
    ensures
        channel_status::statuses_of(store.texts_at(store::last_seen_keys_of(channels)))
            == channels.map_values(|c: Seq<char>| online(store, c)),
{
    assert(channel_status::statuses_of(store.texts_at(store::last_seen_keys_of(channels)))
        =~= channels.map_values(|c: Seq<char>| online(store, c)));
}

/// A heartbeat counts for fifteen seconds: as long as the device does not
/// send another, its channel is online until then and offline afterwards,
/// whatever else happens to the store.
pub proof fn law_heartbeat_counts_for_fifteen_seconds(
    store: Store,
    channel: Seq<char>,
    capabilities_json: Seq<char>,
    time: Seq<char>,
    metrics: Option<Seq<char>>,
    changes: Seq<Change>,
)
    requires
        store.text(store::devices_key()) is None,
        model::untouched(
            heartbeats::reported(store, channel, capabilities_json, time, metrics),
            changes,
            store::last_seen_key_of(channel),
        ),
    ensures
        ({
            let later = heartbeats::reported(
                store,
                channel,
                capabilities_json,
                time,
                metrics,
            ).through(changes);
            &&& model::seconds_in(changes) < 15 ==> online(later, channel)
            &&& model::seconds_in(changes) > 15 ==> !online(later, channel)
        }),
{
    let after = heartbeats::reported(store, channel, capabilities_json, time, metrics);
    heartbeats::law_heartbeat_is_recorded(store, channel, capabilities_json, time, metrics);
    changes::law_untouched_key_lasts(after, store::last_seen_key_of(channel), changes);
}

/// A channel whose last heartbeat has expired is offline, and no other channel
/// is affected by that.
pub proof fn law_expiry_takes_a_channel_offline(
    store: Store,
    channel: Seq<char>,
    other: Seq<char>,
)
    requires
        other != channel,
    ensures
        !online(store.without(store::last_seen_key_of(channel)), channel),
        online(store.without(store::last_seen_key_of(channel)), other) == online(store, other),
{
    names::law_keys_of_devices_differ(channel, other);
}

/// What a query for the metrics of `channel` hands on.
pub open spec fn metrics_of(store: Store, channel: Seq<char>) -> Option<Seq<char>> {
    metrics::served(store.texts_at(metrics::keys_of(channel)))
}

/// The metrics that a device sends with a heartbeat are what a query for them
/// hands on for the next fifteen seconds, where the device has the capability
/// `metrics`; afterwards there are none. Where it does not have the capability,
/// there are none in any case. This holds until its next heartbeat, or until it
/// is cleaned up.
pub proof fn law_metrics_are_served_as_sent(
    store: Store,
    channel: Seq<char>,
    capabilities: Seq<Seq<char>>,
    capabilities_json: Seq<char>,
    time: Seq<char>,
    text: Seq<char>,
    changes: Seq<Change>,
)
    requires
        store.text(store::devices_key()) is None,
        json::decoded_texts(capabilities_json) == Some(capabilities),
        model::untouched(
            heartbeats::reported(store, channel, capabilities_json, time, Some(text)),
            changes,
            store::capability_key_of(channel),
        ),
        model::untouched(
            heartbeats::reported(store, channel, capabilities_json, time, Some(text)),
            changes,
            store::metrics_key_of(channel),
        ),
    ensures
        ({
            let later = heartbeats::reported(
                store,
                channel,
                capabilities_json,
                time,
                Some(text),
            ).through(changes);
            if capabilities.contains("metrics"@) {
                &&& model::seconds_in(changes) < 15 ==> metrics_of(later, channel) == Some(text)
                &&& model::seconds_in(changes) > 15 ==> metrics_of(later, channel) is None
            } else {
                metrics_of(later, channel) is None
            }
        }),
{
    let after = heartbeats::reported(store, channel, capabilities_json, time, Some(text));
    heartbeats::law_heartbeat_is_recorded(store, channel, capabilities_json, time, Some(text));
    changes::law_untouched_key_lasts(after, store::capability_key_of(channel), changes);
    changes::law_untouched_key_lasts(after, store::metrics_key_of(channel), changes);
}

/// A heartbeat without the capability `metrics` ends what a query hands on,
/// and one with it but without metrics leaves what is stored to be handed on.
pub proof fn law_heartbeat_decides_on_the_metrics(
    store: Store,
    channel: Seq<char>,
    capabilities: Seq<Seq<char>>,
    capabilities_json: Seq<char>,
    time: Seq<char>,
)
    requires
        store.text(store::devices_key()) is None,
        json::decoded_texts(capabilities_json) == Some(capabilities),
    ensures
        metrics_of(heartbeats::reported(store, channel, capabilities_json, time, None), channel)
            == if capabilities.contains("metrics"@) {
            store.text(store::metrics_key_of(channel))
        } else {
            None
        },
{
    heartbeats::law_heartbeat_is_recorded(store, channel, capabilities_json, time, None);
}

/// The query for a capability goes through the devices one by one: for two
/// lists put together it gives what it gives for the one and then what it gives
/// for the other, and for a device on its own its channel, or nothing where the
/// device does not have the capability.
pub proof fn law_capability_query_goes_one_by_one(
    a: Seq<Device>,
    b: Seq<Device>,
    device: Device,
    capability: Seq<char>,
)
    ensures
        devices::offering(a + b, capability) == devices::offering(a, capability)
            + devices::offering(b, capability),
        devices::offering(seq![device], capability) == if device.capabilities.contains(
            capability,
        ) {
            seq![device.channel]
        } else {
            Seq::empty()
        },
{
    let wanted = |d: Device| d.capabilities.contains(capability);
    let channel = |d: Device| d.channel;
    Seq::filter_distributes_over_add(a, b, wanted);
    assert((a.filter(wanted) + b.filter(wanted)).map_values(channel) =~= a.filter(
        wanted,
    ).map_values(channel) + b.filter(wanted).map_values(channel));
    let none = Seq::<Device>::empty();
    none.lemma_filter_push(device, wanted);
    assert(none.filter(wanted) =~= none) by {
        reveal(Seq::filter);
    }
    assert(none.push(device) =~= seq![device]);
    assert(devices::offering(seq![device], capability) =~= if wanted(device) {
        seq![device.channel]
    } else {
        Seq::empty()
    });
}

/// The query for a capability picks devices in their order, each that has the
/// capability once and no other; so it names no channel twice where no two
/// devices share one.
pub proof fn law_capability_query_picks_in_order(
    devices: Seq<Device>,
    capability: Seq<char>,
) -> (picks: Seq<int>)
    ensures
        devices::offering(devices, capability).len() == picks.len(),
        forall|k: int|
            0 <= k < picks.len() ==> {
                &&& 0 <= #[trigger] picks[k] < devices.len()
                &&& devices[picks[k]].capabilities.contains(capability)
                &&& devices::offering(devices, capability)[k] == devices[picks[k]].channel
            },
        forall|k: int, l: int| 0 <= k < l < picks.len() ==> #[trigger] picks[k] < #[trigger] picks[l],
        forall|i: int|
            0 <= i < devices.len() && (#[trigger] devices[i]).capabilities.contains(capability)
                ==> picks.contains(i),
        (forall|i: int, j: int|
            0 <= i < j < devices.len() ==> (#[trigger] devices[i]).channel != (
            #[trigger] devices[j]).channel) ==> devices::offering(
            devices,
            capability,
        ).no_duplicates(),
    decreases devices.len(),
{
    if devices.len() == 0 {
        law_capability_query_goes_one_by_one(
            devices,
            devices,
            Device { channel: capability, capabilities: Seq::empty() },
            capability,
        );
        assert(devices + devices =~= devices);
        Seq::empty()
    } else {
        let front = devices.drop_last();
        let last = devices.last();
        let before = law_capability_query_picks_in_order(front, capability);
        law_capability_query_goes_one_by_one(front, front, last, capability);
        law_capability_query_goes_one_by_one(front, seq![last], last, capability);
        assert(front + seq![last] =~= devices);
        let picks = if last.capabilities.contains(capability) {
            before.push(devices.len() - 1)
        } else {
            before
        };
        let found = devices::offering(devices, capability);
        assert forall|k: int| 0 <= k < picks.len() implies {
            &&& 0 <= #[trigger] picks[k] < devices.len()
            &&& devices[picks[k]].capabilities.contains(capability)
            &&& found[k] == devices[picks[k]].channel
        } by {
            if k < before.len() {
                assert(picks[k] == before[k]);
                assert(front[before[k]] == devices[before[k]]);
            }
        }
        assert forall|i: int|
            0 <= i < devices.len() && (#[trigger] devices[i]).capabilities.contains(
                capability,
            ) implies picks.contains(i) by {
            if i < front.len() {
                assert(front[i] == devices[i]);
                assert(before.contains(i));
                let k = choose|k: int| 0 <= k < before.len() && before[k] == i;
                assert(picks[k] == i);
            } else {
                assert(picks[picks.len() - 1] == i);
            }
        }
        assert forall|k: int, l: int| 0 <= k < l < picks.len() implies #[trigger] picks[k]
            < #[trigger] picks[l] by {
            assert(picks[k] == before[k]);
            if l < before.len() {
                assert(picks[l] == before[l]);
            }
        }
        if forall|i: int, j: int|
            0 <= i < j < devices.len() ==> (#[trigger] devices[i]).channel != (
            #[trigger] devices[j]).channel {
            assert forall|k: int, l: int| 0 <= k < l < found.len() implies found[k] != found[l] by {
                assert(picks[k] < picks[l]);
                assert(devices[picks[k]].channel != devices[picks[l]].channel);
            }
            assert(found.no_duplicates());
        }
        picks
    }
}

/// A query for all devices reports each channel in its place, with what was
/// read of its capabilities, or with none where nothing was read; as far as both
/// lists go.
pub proof fn law_devices_are_described_in_their_places(
    channels: Seq<Seq<char>>,
    read: Seq<Option<Seq<Seq<char>>>>,
)
    ensures
        ({
            let told = devices::described(channels, read);
            &&& told.len() <= channels.len() && told.len() <= read.len()
            &&& told.len() == channels.len() || told.len() == read.len()
            &&& forall|i: int|
                0 <= i < told.len() ==> {
                    &&& (#[trigger] told[i]).channel == channels[i]
                    &&& read[i] matches Some(list) ==> told[i].capabilities == list
                    &&& read[i] is None ==> told[i].capabilities.len() == 0
                }
        }),
{
}

/// The values of capability keys are read each in its place: where there is a
/// text, what it holds as JSON, and nothing where there is none.
pub proof fn law_values_are_read_in_their_places(values: Seq<Option<Seq<char>>>)
    ensures
        devices::read_values(values).len() == values.len(),
        forall|i: int|
            0 <= i < values.len() ==> #[trigger] devices::read_values(values)[i] == match values[i] {
                Some(text) => json::decoded_texts(text),
                None => None,
            },
        values.len() > 0 ==> devices::read_value(values[0]) == match values[0] {
            Some(text) => json::decoded_texts(text),
            None => None,
        },
{
}

/// The model of a device says what the device says.
pub proof fn law_devices_are_modelled_as_they_are(device: DeviceCapabilities)
    ensures
        device.deep_view() == device@,
        device@.channel == device.channel@,
        device@.capabilities.len() == device.capabilities@.len(),
        forall|i: int|
            0 <= i < device.capabilities@.len() ==> #[trigger] device@.capabilities[i]
                == device.capabilities@[i]@,
{
}

/// A status is given for each value in its place, and tells whether the value
/// is there.
pub proof fn law_statuses_follow_the_values(values: Seq<Option<Seq<char>>>)
    ensures
        channel_status::statuses_of(values).len() == values.len(),
        forall|i: int|
            0 <= i < values.len() ==> #[trigger] channel_status::statuses_of(values)[i]
                == values[i] is Some,
{
}

/// Metrics are handed on as they are stored where `metrics` is among the
/// capabilities that can be read, and in no other case; they are served in the
/// text format of Prometheus.
pub proof fn law_metrics_need_the_capability(
    channel: Seq<char>,
    capabilities_json: Option<Seq<char>>,
    capabilities: Seq<Seq<char>>,
    stored: Option<Seq<char>>,
    values: Seq<Option<Seq<char>>>,
)
    ensures
        metrics::keys_of(channel) == seq![channel + "_capability"@, "metrics_"@ + channel],
        metrics::enabled(Some(capabilities), stored) == if capabilities.contains("metrics"@) {
            stored
        } else {
            None
        },
        metrics::enabled(None, stored) is None,
        metrics::served(seq![capabilities_json, stored]) == match capabilities_json {
            Some(text) => match json::decoded_texts(text) {
                Some(list) => if list.contains("metrics"@) {
                    stored
                } else {
                    None
                },
                None => None,
            },
            None => None,
        },
        values.len() != 2 ==> metrics::served(values) is None,
        metrics::PROMETHEUS_CONTENT_TYPE@ == "text/plain; version=0.0.4; charset=utf-8"@,
        metrics::MetricsError::NotFound.status_code() == 404,
        metrics::MetricsError::InternalServerError.status_code() == 500,
{
}

/// What a call carries is what the queries tell once its writes are made: the
/// store then has the time under the last-heartbeat key of the channel, the
/// capabilities under its capability key, and the channel among the known
/// devices; and where the call has metrics and the capability for them, they are
/// handed on character for character.
pub proof fn law_call_reaches_the_queries(
    store: Store,
    call: Json,
    channel: String,
    items: Vec<Json>,
    capabilities_json: Seq<char>,
    time: Seq<char>,
)
    requires
        store.text("available_devices"@) is None,
        call.field("device_channel"@) == Some(Json::Text(channel)),
        call.field("capabilities"@) == Some(Json::Array(items)),
        heartbeat::report_of(Some(call)) matches Ok(report) && json::decoded_texts(
            capabilities_json,
        ) == Some(report.capabilities),
    ensures
        ({
            let report = heartbeat::report_of(Some(call))->Ok_0;
            let after = store.after_all(
                heartbeat::heartbeat_writes(
                    report.channel,
                    capabilities_json,
                    time,
                    report.metrics,
                ),
            );
            &&& after is Some
            &&& after->0.text(channel@ + "_capability"@) == Some(capabilities_json)
            &&& after->0.text(channel@ + "_last_seen"@) == Some(time)
            &&& after->0.members("available_devices"@).contains(channel@)
            &&& forall|i: int|
                0 <= i < items@.len() ==> ((#[trigger] items@[i]) matches Json::Text(t)
                    ==> devices::offering(
                    devices::described(
                        seq![channel@],
                        devices::read_values(after->0.texts_at(seq![channel@ + "_capability"@])),
                    ),
                    t@,
                ) == seq![channel@])
            &&& call.field("metrics_text"@) matches Some(Json::Text(text)) ==> {
                &&& after->0.text("metrics_"@ + channel@) == Some(text@)
                &&& (exists|i: int|
                    0 <= i < items@.len() && ((#[trigger] items@[i]) matches Json::Text(t) && t@
                        == "metrics"@)) ==> metrics::served(
                    after->0.texts_at(seq![channel@ + "_capability"@, "metrics_"@ + channel@]),
                ) == Some(text@)
            }
        }),
{
    calls::law_call_is_read_as_it_stands(call, channel, items);
    let report = heartbeat::report_of(Some(call))->Ok_0;
    names::law_keys_are_spelled(channel@);
    heartbeats::law_heartbeat_is_recorded(
        store,
        channel@,
        capabilities_json,
        time,
        report.metrics,
    );
    let after = heartbeats::reported(store, channel@, capabilities_json, time, report.metrics);
    assert(store.members("available_devices"@).insert(channel@).contains(channel@));
    calls::law_collected_texts_are_among_the_items(items@, "metrics"@);
    let told = devices::described(
        seq![channel@],
        devices::read_values(after.texts_at(seq![channel@ + "_capability"@])),
    );
    let device = Device { channel: channel@, capabilities: report.capabilities };
    assert(told =~= seq![device]);
    assert forall|i: int| 0 <= i < items@.len() implies ((#[trigger] items@[i]) matches Json::Text(t)
        ==> devices::offering(told, t@) == seq![channel@]) by {
        if let Json::Text(t) = items@[i] {
            calls::law_collected_texts_are_among_the_items(items@, t@);
            law_capability_query_goes_one_by_one(seq![device], seq![device], device, t@);
        }
    }
}

} // verus!
