//! The key-value store as the service uses it: the names of its keys, and the
//! writes that the service asks for.
//!
//! Layout of the keys:
//! - `{channel}_capability` holds the capabilities of a device, as JSON text;
//! - `{channel}_last_seen` holds the time of its last heartbeat and expires;
//! - `available_devices` is the set of the channels of all known devices;
//! - `cleanup_lock:{channel}` is held by the instance that cleans up after a
//!   device;
//! - `metrics_{channel}` holds the metrics of a device and expires.

use vstd::prelude::*;

use crate::text::join;

verus! {

/// The set of the channels of all known devices.
pub const AVAILABLE_DEVICES_KEY: &'static str = "available_devices";

/// Ends the key of a device's last heartbeat.
pub const LAST_SEEN_SUFFIX: &'static str = "_last_seen";

/// Ends the key of a device's capabilities.
pub const CAPABILITY_SUFFIX: &'static str = "_capability";

/// Begins the key of a cleanup lock.
pub const CLEANUP_LOCK_PREFIX: &'static str = "cleanup_lock:";

/// Begins the key of a device's metrics.
pub const METRICS_PREFIX: &'static str = "metrics_";

/// The key of the set of known devices.
pub open spec fn devices_key() -> Seq<char> {
    AVAILABLE_DEVICES_KEY@
}

/// The key of the last heartbeat of `channel`.
pub open spec fn last_seen_key_of(channel: Seq<char>) -> Seq<char> {
    channel + LAST_SEEN_SUFFIX@
}

/// The key of the capabilities of `channel`.
pub open spec fn capability_key_of(channel: Seq<char>) -> Seq<char> {
    channel + CAPABILITY_SUFFIX@
}

/// The key of the cleanup lock of `channel`.
pub open spec fn lock_key_of(channel: Seq<char>) -> Seq<char> {
    CLEANUP_LOCK_PREFIX@ + channel
}

/// The key of the metrics of `channel`.
pub open spec fn metrics_key_of(channel: Seq<char>) -> Seq<char> {
    METRICS_PREFIX@ + channel
}

/// Names the set of known devices.
pub fn members_key() -> (r: &'static str)
    ensures
        r@ == devices_key(),
{
    AVAILABLE_DEVICES_KEY
}

/// Names the key of the last heartbeat of `channel`.
pub fn last_seen_key(channel: &str) -> (r: String)
    ensures
        r@ == last_seen_key_of(channel@),
{
    join(channel, LAST_SEEN_SUFFIX)
}

/// Names the key of the capabilities of `channel`.
pub fn capability_key(channel: &str) -> (r: String)
    ensures
        r@ == capability_key_of(channel@),
{
    join(channel, CAPABILITY_SUFFIX)
}

/// Names the key of the cleanup lock of `channel`.
pub fn lock_key(channel: &str) -> (r: String)
    ensures
        r@ == lock_key_of(channel@),
{
    join(CLEANUP_LOCK_PREFIX, channel)
}

/// Names the key of the metrics of `channel`.
pub fn metrics_key(channel: &str) -> (r: String)
    ensures
        r@ == metrics_key_of(channel@),
{
    join(METRICS_PREFIX, channel)
}

/// The capability keys of `channels`, in the same order.
pub open spec fn capability_keys_of(channels: Seq<Seq<char>>) -> Seq<Seq<char>> {
    channels.map_values(|c: Seq<char>| capability_key_of(c))
}

/// The last-heartbeat keys of `channels`, in the same order.
pub open spec fn last_seen_keys_of(channels: Seq<Seq<char>>) -> Seq<Seq<char>> {
    channels.map_values(|c: Seq<char>| last_seen_key_of(c))
}

/// Names the capability keys of `channels`, in the same order.
pub fn capability_keys(channels: &Vec<String>) -> (r: Vec<String>)
    ensures
        r.deep_view() == capability_keys_of(channels.deep_view()),
{
    let mut keys: Vec<String> = Vec::new();
    let mut i: usize = 0;
    while i < channels.len()
        invariant
            i <= channels@.len(),
            keys@.len() == i,
            forall|j: int|
                0 <= j < i ==> (#[trigger] keys@[j])@ == capability_key_of(channels@[j]@),
        decreases channels@.len() - i,
    {
        keys.push(capability_key(channels[i].as_str()));
        i = i + 1;
    }
    assert(keys.deep_view() =~= capability_keys_of(channels.deep_view()));
    keys
}

/// Names the last-heartbeat keys of `channels`, in the same order.
pub fn last_seen_keys(channels: &Vec<String>) -> (r: Vec<String>)
    ensures
        r.deep_view() == last_seen_keys_of(channels.deep_view()),
{
    let mut keys: Vec<String> = Vec::new();
    let mut i: usize = 0;
    while i < channels.len()
        invariant
            i <= channels@.len(),
            keys@.len() == i,
            forall|j: int|
                0 <= j < i ==> (#[trigger] keys@[j])@ == last_seen_key_of(channels@[j]@),
        decreases channels@.len() - i,
    {
        keys.push(last_seen_key(channels[i].as_str()));
        i = i + 1;
    }
    assert(keys.deep_view() =~= last_seen_keys_of(channels.deep_view()));
    keys
}

/// A write that the service asks the store for.
#[derive(Debug)]
pub enum StoreWrite {
    /// Set a key to a text that stays.
    Put { key: String, value: String },
    /// Set a key to a text that expires.
    PutExpiring { key: String, value: String, seconds: u64 },
    /// Set a key to a text that expires, unless the key is there already.
    PutIfAbsent { key: String, value: String, seconds: u64 },
    /// Add a member to a set.
    AddMember { key: String, member: String },
    /// Remove a member from a set.
    RemoveMember { key: String, member: String },
    /// Remove a key.
    Delete { key: String },
}

/// The model of a [`StoreWrite`].
pub enum Write {
    Put { key: Seq<char>, value: Seq<char> },
    PutExpiring { key: Seq<char>, value: Seq<char>, seconds: nat },
    PutIfAbsent { key: Seq<char>, value: Seq<char>, seconds: nat },
    AddMember { key: Seq<char>, member: Seq<char> },
    RemoveMember { key: Seq<char>, member: Seq<char> },
    Delete { key: Seq<char> },
}

impl Write {
    /// The key that is written.
    pub open spec fn key(self) -> Seq<char> {
        match self {
            Write::Put { key, .. } => key,
            Write::PutExpiring { key, .. } => key,
            Write::PutIfAbsent { key, .. } => key,
            Write::AddMember { key, .. } => key,
            Write::RemoveMember { key, .. } => key,
            Write::Delete { key } => key,
        }
    }
}

impl View for StoreWrite {
    type V = Write;

    open spec fn view(&self) -> Write {
        match *self {
            StoreWrite::Put { key, value } => Write::Put { key: key@, value: value@ },
            StoreWrite::PutExpiring { key, value, seconds } => Write::PutExpiring {
                key: key@,
                value: value@,
                seconds: seconds as nat,
            },
            StoreWrite::PutIfAbsent { key, value, seconds } => Write::PutIfAbsent {
                key: key@,
                value: value@,
                seconds: seconds as nat,
            },
            StoreWrite::AddMember { key, member } => Write::AddMember { key: key@, member: member@ },
            StoreWrite::RemoveMember { key, member } => Write::RemoveMember { key: key@, member: member@ },
            StoreWrite::Delete { key } => Write::Delete { key: key@ },
        }
    }
}

impl DeepView for StoreWrite {
    type V = Write;

    open spec fn deep_view(&self) -> Write {
        self@
    }
}

/// What is still to be made of `writes` once the first of them has been made,
/// or has failed.
pub open spec fn rest_of(writes: Seq<Write>, done: bool) -> Seq<Write> {
    if done {
        writes.skip(1)
    } else {
        Seq::empty()
    }
}

/// Writes to be made one after the other, each once the one before it has
/// succeeded. The view is what is still to be made; it is never empty.
pub struct WriteRun {
    writes: Vec<StoreWrite>,
    done: usize,
}

/// How a [`WriteRun`] goes on after the outcome of its current write.
pub enum WriteProgress {
    /// There is another write to make.
    Next(WriteRun),
    /// All writes have been made.
    Finished,
    /// A write failed, with this message; the rest are not made.
    Aborted(String),
}

impl View for WriteRun {
    type V = Seq<Write>;

    closed spec fn view(&self) -> Seq<Write> {
        self.writes.deep_view().skip(self.done as int)
    }
}

impl WriteRun {
    #[verifier::type_invariant]
    spec fn pending(self) -> bool {
        self.done < self.writes@.len()
    }

    /// A run of `writes`, from the first on.
    pub(crate) fn new(writes: Vec<StoreWrite>) -> (r: WriteRun)
        requires
            writes@.len() > 0,
        ensures
            r@ == writes.deep_view(),
    {
        let run = WriteRun { writes, done: 0 };
        assert(run@ == writes.deep_view());
        run
    }

    /// The write to make now.
    pub fn current(&self) -> (r: &StoreWrite)
        ensures
            self@.len() > 0,
            r@ == self@[0],
    {
        proof {
            use_type_invariant(self);
        }
        &self.writes[self.done]
    }

    /// Takes the outcome of the current write.
    pub fn advance(self, outcome: Result<(), String>) -> (r: WriteProgress)
        ensures
            self@.len() > 0,
            match r {
                WriteProgress::Next(run) => run@ == rest_of(self@, outcome is Ok),
                WriteProgress::Finished => outcome is Ok,
                WriteProgress::Aborted(message) => outcome == Err::<(), String>(message),
            },
            r is Next <==> rest_of(self@, outcome is Ok).len() > 0,
    {
        proof {
            use_type_invariant(&self);
        }
        match outcome {
            Ok(_) => {
                let total: usize = self.writes.len();
                let done: usize = self.done + 1;
                if done < total {
                    let run = WriteRun { writes: self.writes, done };
                    assert(run@ == rest_of(self@, true));
                    WriteProgress::Next(run)
                } else {
                    WriteProgress::Finished
                }
            },
            Err(message) => WriteProgress::Aborted(message),
        }
    }
}

} // verus!
