//! The names of keys and channels.

use vstd::prelude::*;

use crate::service;
use crate::store;

verus! {

/// The names of keys are told apart by their last characters: no key of a
/// device is the key of the set of devices, and no last-heartbeat key is a
/// capability key.
pub proof fn law_keys_of_kinds_differ(a: Seq<char>, b: Seq<char>)
    ensures
        store::last_seen_key_of(a) != store::capability_key_of(b),
        store::last_seen_key_of(a) != store::devices_key(),
        store::capability_key_of(a) != store::devices_key(),
{
    reveal_strlit("_last_seen");
    reveal_strlit("_capability");
    reveal_strlit("available_devices");
    assert(store::last_seen_key_of(a).last() == 'n');
    assert(store::capability_key_of(a).last() == 'y');
    assert(store::capability_key_of(b).last() == 'y');
    assert(store::devices_key().last() == 's');
}

/// Two devices share no key: a key names its device.
pub proof fn law_keys_of_devices_differ(a: Seq<char>, b: Seq<char>)
    requires
        a != b,
    ensures
        store::last_seen_key_of(a) != store::last_seen_key_of(b),
        store::capability_key_of(a) != store::capability_key_of(b),
        store::lock_key_of(a) != store::lock_key_of(b),
        store::metrics_key_of(a) != store::metrics_key_of(b),
{
    lemma_cancel_suffix(a, b, store::LAST_SEEN_SUFFIX@);
    lemma_cancel_suffix(a, b, store::CAPABILITY_SUFFIX@);
    lemma_cancel_prefix(store::CLEANUP_LOCK_PREFIX@, a, b);
    lemma_cancel_prefix(store::METRICS_PREFIX@, a, b);
}

proof fn lemma_cancel_suffix(a: Seq<char>, b: Seq<char>, s: Seq<char>)
    ensures
        a + s == b + s ==> a == b,
{
    if a + s == b + s {
        assert((a + s).len() == (b + s).len());
        assert(a =~= (a + s).take(a.len() as int));
        assert(b =~= (b + s).take(b.len() as int));
    }
}

proof fn lemma_cancel_prefix(s: Seq<char>, a: Seq<char>, b: Seq<char>)
    ensures
        s + a == s + b ==> a == b,
{
    if s + a == s + b {
        assert(a =~= (s + a).skip(s.len() as int));
        assert(b =~= (s + b).skip(s.len() as int));
    }
}

/// Tells whether the metrics key of `channel` is neither the capability key
/// nor the last-heartbeat key of `other`.
pub open spec fn clear_of(channel: Seq<char>, other: Seq<char>) -> bool {
    &&& store::metrics_key_of(channel) != store::capability_key_of(other)
    &&& store::metrics_key_of(channel) != store::last_seen_key_of(other)
}

/// A metrics key is no other key of its device, nor a lock key, nor the key of
/// the set of devices. It is a capability key or a last-heartbeat key of another
/// device only where that device is named `metrics` or its name begins with
/// `metrics_`: the metrics key of `x_capability` is the capability key of
/// `metrics_x`.
pub proof fn law_metrics_have_keys_of_their_own(channel: Seq<char>, other: Seq<char>)
    ensures
        clear_of(channel, channel),
        clear_of(channel, other) || store::METRICS_PREFIX@.is_prefix_of(other.push('_')),
        store::metrics_key_of(channel) != store::lock_key_of(other),
        store::metrics_key_of(channel) != store::devices_key(),
{
    reveal_strlit("metrics_");
    reveal_strlit("cleanup_lock:");
    reveal_strlit("_last_seen");
    reveal_strlit("_capability");
    reveal_strlit("available_devices");
    let prefix = store::METRICS_PREFIX@;
    let key = store::metrics_key_of(channel);
    assert(key[0] == 'm' && store::lock_key_of(other)[0] == 'c' && store::devices_key()[0] == 'a');
    assert(key.len() == channel.len() + 8);
    assert(store::capability_key_of(channel).len() == channel.len() + 11);
    assert(store::last_seen_key_of(channel).len() == channel.len() + 10);
    assert forall|suffix: Seq<char>|
        suffix == store::CAPABILITY_SUFFIX@ || suffix == store::LAST_SEEN_SUFFIX@ implies (
    #[trigger] (other + suffix)) != key || prefix.is_prefix_of(other.push('_')) by {
        if other + suffix == key {
            assert((other + suffix)[other.len() as int] == '_');
            if other.len() < 7 {
                assert(key[other.len() as int] == prefix[other.len() as int]);
            } else {
                assert forall|i: int| 0 <= i < 8 implies prefix[i] == other.push('_')[i] by {
                    assert(key[i] == prefix[i]);
                    assert((other + suffix)[i] == other.push('_')[i]);
                }
                assert(prefix =~= other.push('_').subrange(0, prefix.len() as int));
            }
        }
    }
    assert(store::capability_key_of(other) == other + store::CAPABILITY_SUFFIX@);
    assert(store::last_seen_key_of(other) == other + store::LAST_SEEN_SUFFIX@);
}

/// A lock key is neither a metrics key nor the key of the set of devices. It is
/// a capability key only where the name of that device begins as lock keys do
/// and the name of the locked device ends as capability keys do; and likewise
/// for last-heartbeat keys.
pub proof fn law_locks_have_keys_of_their_own(channel: Seq<char>, device: Seq<char>)
    ensures
        store::lock_key_of(device) == store::capability_key_of(channel)
            ==> store::CLEANUP_LOCK_PREFIX@.is_prefix_of(channel)
            && store::CAPABILITY_SUFFIX@.is_suffix_of(device),
        store::lock_key_of(device) == store::last_seen_key_of(channel)
            ==> store::CLEANUP_LOCK_PREFIX@.is_prefix_of(channel)
            && store::LAST_SEEN_SUFFIX@.is_suffix_of(device),
        store::lock_key_of(device) != store::metrics_key_of(channel),
        store::lock_key_of(device) != store::devices_key(),
{
    reveal_strlit("cleanup_lock:");
    reveal_strlit("_last_seen");
    reveal_strlit("_capability");
    reveal_strlit("available_devices");
    law_metrics_have_keys_of_their_own(channel, device);
    let prefix = store::CLEANUP_LOCK_PREFIX@;
    let lock = store::lock_key_of(device);
    assert(lock[12] == ':');
    assert(lock[0] == 'c' && store::devices_key()[0] == 'a');
    assert forall|suffix: Seq<char>|
        suffix == store::CAPABILITY_SUFFIX@ || suffix == store::LAST_SEEN_SUFFIX@ implies (
    #[trigger] (channel + suffix)) != lock || (prefix.is_prefix_of(channel)
        && suffix.is_suffix_of(device)) by {
        if channel + suffix == lock {
            assert((channel + suffix).len() == lock.len());
            if channel.len() > 12 {
                assert forall|i: int| 0 <= i < 13 implies prefix[i] == channel[i] by {
                    assert(lock[i] == prefix[i]);
                    assert((channel + suffix)[i] == channel[i]);
                }
                assert(prefix =~= channel.subrange(0, prefix.len() as int));
                let from = device.len() - suffix.len();
                assert forall|i: int| 0 <= i < suffix.len() implies suffix[i] == device[from + i] by {
                    assert((channel + suffix)[channel.len() + i] == suffix[i]);
                    assert(lock[13 + from + i] == device[from + i]);
                }
                assert(suffix =~= device.subrange(from, device.len() as int));
            } else {
                assert((channel + suffix)[12] == suffix[12 - channel.len()]);
                assert(forall|i: int| 0 <= i < suffix.len() ==> suffix[i] != ':');
            }
        }
    }
    assert(store::capability_key_of(channel) == channel + store::CAPABILITY_SUFFIX@);
    assert(store::last_seen_key_of(channel) == channel + store::LAST_SEEN_SUFFIX@);
}

/// Instances with different identities have different channels.
pub proof fn law_instances_have_their_own_channels(a: Seq<char>, b: Seq<char>, realm: Seq<char>)
    requires
        a != b,
    ensures
        service::channel_of(service::prefix_of(a), realm) != service::channel_of(
            service::prefix_of(b),
            realm,
        ),
{
    let head = service::SERVICE_PREFIX@ + "-"@;
    lemma_cancel_prefix(head, a, b);
    lemma_cancel_suffix(head + a, head + b, "_"@ + realm);
    assert(service::channel_of(service::prefix_of(a), realm) =~= (head + a) + ("_"@ + realm));
    assert(service::channel_of(service::prefix_of(b), realm) =~= (head + b) + ("_"@ + realm));
}

/// The keys are spelled as the layout of the store has it.
pub proof fn law_keys_are_spelled(channel: Seq<char>)
    ensures
        store::devices_key() == "available_devices"@,
        store::last_seen_key_of(channel) == channel + "_last_seen"@,
        store::capability_key_of(channel) == channel + "_capability"@,
        store::lock_key_of(channel) == "cleanup_lock:"@ + channel,
        store::metrics_key_of(channel) == "metrics_"@ + channel,
{
}

/// A list of channels gives one key for each, in the same order.
pub proof fn law_keys_follow_their_channels(channels: Seq<Seq<char>>)
    ensures
        store::capability_keys_of(channels).len() == channels.len(),
        store::last_seen_keys_of(channels).len() == channels.len(),
        forall|i: int|
            0 <= i < channels.len() ==> {
                &&& #[trigger] store::capability_keys_of(channels)[i] == channels[i]
                    + "_capability"@
                &&& store::last_seen_keys_of(channels)[i] == channels[i] + "_last_seen"@
            },
        forall|i: int|
            0 <= i < channels.len() ==> #[trigger] store::last_seen_keys_of(channels)[i]
                == channels[i] + "_last_seen"@,
{
}

/// The channel of an instance is made of the name of the service, the identity
/// of the instance and the realm; and the identity is found in its prefix.
pub proof fn law_channels_are_spelled(id: Seq<char>, prefix: Seq<char>, realm: Seq<char>)
    ensures
        service::prefix_of(id) == "presence"@ + "-"@ + id,
        service::id_in("presence"@ + "-"@ + id) == id,
        service::channel_of(prefix, realm) == prefix + "_"@ + realm,
        service::SERVICE_PREFIX@ == "presence"@,
        service::REALM@ == "ginger-society"@,
{
    reveal_strlit("-");
    assert(service::id_in("presence"@ + "-"@ + id) =~= id);
}

/// An identity is a random UUID in its hyphenated form: groups of eight, four,
/// four, four and twelve hexadecimal digits in lower case, with a hyphen between
/// them; the third group begins with its version and the fourth with its variant.
pub proof fn law_identities_are_hyphenated(id: Seq<char>, i: int)
    requires
        service::is_random_uuid(id),
    ensures
        id.len() == 36,
        id[8] == '-' && id[13] == '-' && id[18] == '-' && id[23] == '-',
        0 <= i < 36 && i != 8 && i != 13 && i != 18 && i != 23 ==> 48 <= id[i] as int <= 57 || 97
            <= id[i] as int <= 102,
        id[14] == '4',
        id[19] == '8' || id[19] == '9' || id[19] == 'a' || id[19] == 'b',
{
}

} // verus!
