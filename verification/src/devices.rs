//! Queries for the devices that are online.
//!
//! Each query takes two requests to the store: the members of
//! [`AVAILABLE_DEVICES_KEY`](crate::store::AVAILABLE_DEVICES_KEY), then the
//! values of the capability keys of those members, in one request. The second
//! is made only where the first brought any member.

use vstd::prelude::*;

use crate::json::decode_texts;
use crate::store::capability_keys;

verus! {

/// A device and its capabilities.
#[derive(Debug)]
pub struct DeviceCapabilities {
    pub channel: String,
    pub capabilities: Vec<String>,
}

/// The model of a [`DeviceCapabilities`].
#[verifier::ext_equal]
pub struct Device {
    pub channel: Seq<char>,
    pub capabilities: Seq<Seq<char>>,
}

impl View for DeviceCapabilities {
    type V = Device;

    open spec fn view(&self) -> Device {
        Device { channel: self.channel@, capabilities: self.capabilities.deep_view() }
    }
}

impl DeepView for DeviceCapabilities {
    type V = Device;

    open spec fn deep_view(&self) -> Device {
        self@
    }
}

/// A query for the devices that have a capability.
#[derive(Debug)]
pub struct AvailableDevicesQuery {
    pub capability: String,
}

/// The capabilities that the value of a capability key holds: none are read
/// where there is no value, or where it is not the JSON of a list of strings.
pub open spec fn read_value(value: Option<Seq<char>>) -> Option<Seq<Seq<char>>> {
    match value {
        Some(text) => crate::json::decoded_texts(text),
        None => None,
    }
}

/// [`read_value`] on each of `values`.
pub open spec fn read_values(values: Seq<Option<Seq<char>>>) -> Seq<Option<Seq<Seq<char>>>> {
    values.map_values(|v: Option<Seq<char>>| read_value(v))
}

/// The devices on `channels`, with what was read of their capabilities. A
/// device of which nothing was read is there, with no capabilities. Where one
/// list is longer than the other, what has no counterpart is left out.
pub open spec fn described(
    channels: Seq<Seq<char>>,
    read: Seq<Option<Seq<Seq<char>>>>,
) -> Seq<Device> {
    Seq::new(
        if channels.len() <= read.len() {
            channels.len()
        } else {
            read.len()
        },
        |i: int|
            Device {
                channel: channels[i],
                capabilities: match read[i] {
                    Some(list) => list,
                    None => Seq::empty(),
                },
            },
    )
}

/// The channels of those `devices` that have `capability`, in order.
pub open spec fn offering(devices: Seq<Device>, capability: Seq<char>) -> Seq<Seq<char>> {
    devices.filter(|d: Device| d.capabilities.contains(capability)).map_values(
        |d: Device| d.channel,
    )
}

/// Reads the values of capability keys.
pub fn decode_values(values: &Vec<Option<String>>) -> (r: Vec<Option<Vec<String>>>)
    ensures
        r.deep_view() == read_values(values.deep_view()),
{
    let mut out: Vec<Option<Vec<String>>> = Vec::new();
    let mut i: usize = 0;
    while i < values.len()
        invariant
            i <= values@.len(),
            out@.len() == i,
            forall|j: int|
                0 <= j < i ==> (#[trigger] out@[j]).deep_view() == read_value(
                    values@[j].deep_view(),
                ),
        decreases values@.len() - i,
    {
        let read: Option<Vec<String>> = match &values[i] {
            Some(text) => decode_texts(text.as_str()),
            None => None,
        };
        out.push(read);
        i = i + 1;
    }
    assert(out.deep_view() =~= read_values(values.deep_view()));
    out
}

/// Puts channels and what was read of their capabilities together.
pub fn describe_devices(channels: &Vec<String>, read: &Vec<Option<Vec<String>>>) -> (r: Vec<
    DeviceCapabilities,
>)
    ensures
        r.deep_view() == described(channels.deep_view(), read.deep_view()),
{
    let mut out: Vec<DeviceCapabilities> = Vec::new();
    let mut i: usize = 0;
    while i < channels.len() && i < read.len()
        invariant
            i <= channels@.len(),
            i <= read@.len(),
            out@.len() == i,
            forall|j: int|
                0 <= j < i ==> (#[trigger] out@[j])@ == described(
                    channels.deep_view(),
                    read.deep_view(),
                )[j],
        decreases channels@.len() - i,
    {
        let capabilities: Vec<String> = match &read[i] {
            Some(list) => list.clone(),
            None => Vec::new(),
        };
        assert(read.deep_view()[i as int] == read@[i as int].deep_view());
        assert(capabilities.deep_view() =~= described(
            channels.deep_view(),
            read.deep_view(),
        )[i as int].capabilities);
        out.push(DeviceCapabilities { channel: channels[i].clone(), capabilities });
        i = i + 1;
    }
    assert(out.deep_view() =~= described(channels.deep_view(), read.deep_view()));
    out
}

/// Tells whether `capability` is among `capabilities`.
pub fn has_capability(capabilities: &Vec<String>, capability: &str) -> (r: bool)
    ensures
        r == capabilities.deep_view().contains(capability@),
{
    let wanted: String = capability.to_owned();
    let mut i: usize = 0;
    while i < capabilities.len()
        invariant
            i <= capabilities@.len(),
            wanted@ == capability@,
            forall|j: int| 0 <= j < i ==> capabilities.deep_view()[j] != capability@,
        decreases capabilities@.len() - i,
    {
        assert(capabilities.deep_view()[i as int] == capabilities@[i as int]@);
        if capabilities[i] == wanted {
            return true;
        }
        i = i + 1;
    }
    false
}

/// Picks the channels of the devices that have `capability`.
pub fn channels_offering(devices: &Vec<DeviceCapabilities>, capability: &String) -> (r: Vec<
    String,
>)
    ensures
        r.deep_view() == offering(devices.deep_view(), capability@),
{
    let ghost all = devices.deep_view();
    let ghost wanted = |d: Device| d.capabilities.contains(capability@);
    let ghost channel = |d: Device| d.channel;
    let mut out: Vec<String> = Vec::new();
    let mut i: usize = 0;
    assert(out.deep_view() =~= all.take(0).filter(wanted).map_values(channel));
    while i < devices.len()
        invariant
            i <= devices@.len(),
            all == devices.deep_view(),
            wanted == (|d: Device| d.capabilities.contains(capability@)),
            channel == (|d: Device| d.channel),
            out.deep_view() == all.take(i as int).filter(wanted).map_values(channel),
        decreases devices@.len() - i,
    {
        let ghost before = all.take(i as int).filter(wanted);
        assert(all[i as int] == devices@[i as int]@);
        assert(all.take(i + 1) == all.take(i as int).push(all[i as int]));
        proof {
            all.take(i as int).lemma_filter_push(all[i as int], wanted);
        }
        if has_capability(&devices[i].capabilities, capability.as_str()) {
            let ghost found = out.deep_view();
            out.push(devices[i].channel.clone());
            assert(out.deep_view() =~= found.push(all[i as int].channel));
            assert(before.push(all[i as int]).map_values(channel) =~= before.map_values(
                channel,
            ).push(all[i as int].channel));
        }
        i = i + 1;
    }
    assert(all.take(i as int) == all);
    out
}

/// The second half of a query: the channels whose capability keys are to be
/// read. There is at least one.
pub struct DeviceLookup {
    channels: Vec<String>,
}

impl View for DeviceLookup {
    type V = Seq<Seq<char>>;

    closed spec fn view(&self) -> Seq<Seq<char>> {
        self.channels.deep_view()
    }
}

/// Goes on with `members`, where there are any.
fn look_up(members: Result<Vec<String>, String>) -> (r: Option<DeviceLookup>)
    ensures
        match members {
            Ok(channels) => if channels@.len() > 0 {
                r is Some && r->0@ == channels.deep_view()
            } else {
                r is None
            },
            Err(_) => r is None,
        },
{
    match members {
        Ok(channels) => if channels.len() > 0 {
            Some(DeviceLookup { channels })
        } else {
            None
        },
        Err(_) => None,
    }
}

impl DeviceLookup {
    /// The keys to read, in order.
    pub fn keys(&self) -> (r: Vec<String>)
        ensures
            r.deep_view() == crate::store::capability_keys_of(self@),
    {
        capability_keys(&self.channels)
    }

    /// Answers the query from the values of the keys; a failure leaves nothing
    /// to report.
    pub fn answer(&self, values: Result<Vec<Option<String>>, String>) -> (r: Vec<
        DeviceCapabilities,
    >)
        ensures
            r.deep_view() == match values {
                Ok(found) => described(self@, read_values(found.deep_view())),
                Err(_) => Seq::empty(),
            },
    {
        match values {
            Ok(found) => describe_devices(&self.channels, &decode_values(&found)),
            Err(_) => {
                let none: Vec<DeviceCapabilities> = Vec::new();
                assert(none.deep_view() =~= Seq::empty());
                none
            },
        }
    }
}

/// How the query for all devices goes on.
pub enum DevicesStep {
    /// Read the keys of this lookup, and hand it their values.
    Fetch(DeviceLookup),
    /// Answer the query.
    Answer(Vec<DeviceCapabilities>),
}

/// Takes the members of the set of known devices, and goes on to their
/// capabilities. Where the store failed, or there are no members, the answer
/// is empty.
pub fn available_devices(members: Result<Vec<String>, String>) -> (r: DevicesStep)
    ensures
        match members {
            Ok(channels) => if channels@.len() > 0 {
                r matches DevicesStep::Fetch(lookup) && lookup@ == channels.deep_view()
            } else {
                r matches DevicesStep::Answer(devices) && devices@.len() == 0
            },
            Err(_) => r matches DevicesStep::Answer(devices) && devices@.len() == 0,
        },
{
    match look_up(members) {
        Some(lookup) => DevicesStep::Fetch(lookup),
        None => DevicesStep::Answer(Vec::new()),
    }
}

/// The second half of a query for a capability.
pub struct CapabilityLookup {
    query: AvailableDevicesQuery,
    lookup: DeviceLookup,
}

impl CapabilityLookup {
    /// The capability asked for.
    pub closed spec fn capability(self) -> Seq<char> {
        self.query.capability@
    }

    /// The channels whose capability keys are to be read.
    pub closed spec fn channels(self) -> Seq<Seq<char>> {
        self.lookup@
    }

    /// The keys to read, in order.
    pub fn keys(&self) -> (r: Vec<String>)
        ensures
            r.deep_view() == crate::store::capability_keys_of(self.channels()),
    {
        self.lookup.keys()
    }

    /// Answers the query from the values of the keys; a failure leaves nothing
    /// to report.
    pub fn answer(&self, values: Result<Vec<Option<String>>, String>) -> (r: Vec<String>)
        ensures
            r.deep_view() == match values {
                Ok(found) => offering(
                    described(self.channels(), read_values(found.deep_view())),
                    self.capability(),
                ),
                Err(_) => Seq::empty(),
            },
    {
        let devices: Vec<DeviceCapabilities> = self.lookup.answer(values);
        channels_offering(&devices, &self.query.capability)
    }
}

/// How the query for a capability goes on.
pub enum CapabilityStep {
    /// Read the keys of this lookup, and hand it their values.
    Fetch(CapabilityLookup),
    /// Answer the query.
    Answer(Vec<String>),
}

/// Takes the members of the set of known devices, and goes on to find those
/// with `capability`. Where the store failed, or there are no members, the
/// answer is empty.
pub fn available_devices_by_capability(
    capability: String,
    members: Result<Vec<String>, String>,
) -> (r: CapabilityStep)
    ensures
        match members {
            Ok(channels) => if channels@.len() > 0 {
                &&& r matches CapabilityStep::Fetch(lookup)
                &&& lookup.channels() == channels.deep_view()
                &&& lookup.capability() == capability@
            } else {
                r matches CapabilityStep::Answer(found) && found@.len() == 0
            },
            Err(_) => r matches CapabilityStep::Answer(found) && found@.len() == 0,
        },
{
    match look_up(members) {
        Some(lookup) => {
            let query = AvailableDevicesQuery { capability };
            CapabilityStep::Fetch(CapabilityLookup { query, lookup })
        },
        None => CapabilityStep::Answer(Vec::new()),
    }
}

} // verus!
