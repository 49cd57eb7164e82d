//! The query whether channels are online.
//!
//! A channel is online while the key of its last heartbeat is there.

use vstd::prelude::*;

use crate::store::last_seen_keys;
use crate::text::split_list;

verus! {

/// The answer: one status for each channel, in the order of the question.
#[derive(Debug)]
pub struct ChannelStatusResponse {
    pub statuses: Vec<bool>,
}

/// The second half of the query: the channels whose last-heartbeat keys are to
/// be read. There is at least one.
pub struct StatusLookup {
    channels: Vec<String>,
}

impl View for StatusLookup {
    type V = Seq<Seq<char>>;

    closed spec fn view(&self) -> Seq<Seq<char>> {
        self.channels.deep_view()
    }
}

/// How the query goes on.
pub enum StatusStep {
    /// Read the keys of this lookup, and hand it their values.
    Fetch(StatusLookup),
    /// Answer the query.
    Answer(ChannelStatusResponse),
}

/// What the values of last-heartbeat keys say: a channel is online where there
/// is a value.
pub open spec fn statuses_of(values: Seq<Option<Seq<char>>>) -> Seq<bool> {
    values.map_values(|v: Option<Seq<char>>| v is Some)
}

/// Takes a comma-separated list of channels, and goes on to their last
/// heartbeats. Where the list has no entries the answer is empty.
pub fn channel_status(channels: &str) -> (r: StatusStep)
    ensures
        if crate::text::entries(channels@).len() > 0 {
            r matches StatusStep::Fetch(lookup) && lookup@ == crate::text::entries(channels@)
        } else {
            r matches StatusStep::Answer(response) && response.statuses@.len() == 0
        },
{
    let listed: Vec<String> = split_list(channels);
    assert(listed@.len() == listed.deep_view().len());
    if listed.len() > 0 {
        StatusStep::Fetch(StatusLookup { channels: listed })
    } else {
        StatusStep::Answer(ChannelStatusResponse { statuses: Vec::new() })
    }
}

impl StatusLookup {
    /// The keys to read, in order.
    pub fn keys(&self) -> (r: Vec<String>)
        ensures
            r.deep_view() == crate::store::last_seen_keys_of(self@),
    {
        last_seen_keys(&self.channels)
    }

    /// Answers the query from the values of the keys. Where the store failed
    /// every channel counts as offline.
    pub fn answer(&self, values: Result<Vec<Option<String>>, String>) -> (r: ChannelStatusResponse)
        ensures
            r.statuses@ == match values {
                Ok(found) => statuses_of(found.deep_view()),
                Err(_) => Seq::new(self@.len(), |i: int| false),
            },
    {
        let mut statuses: Vec<bool> = Vec::new();
        match values {
            Ok(found) => {
                let mut i: usize = 0;
                while i < found.len()
                    invariant
                        i <= found@.len(),
                        statuses@ == statuses_of(found.deep_view()).take(i as int),
                    decreases found@.len() - i,
                {
                    statuses.push(found[i].is_some());
                    assert(statuses@ =~= statuses_of(found.deep_view()).take(i + 1));
                    i = i + 1;
                }
                assert(statuses@ =~= statuses_of(found.deep_view()));
            },
            Err(_) => {
                let mut i: usize = 0;
                while i < self.channels.len()
                    invariant
                        i <= self.channels@.len(),
                        statuses@ == Seq::new(i as nat, |j: int| false),
                    decreases self.channels@.len() - i,
                {
                    statuses.push(false);
                    i = i + 1;
                    assert(statuses@ =~= Seq::new(i as nat, |j: int| false));
                }
                assert(statuses@ =~= Seq::new(self@.len(), |j: int| false));
            },
        }
        ChannelStatusResponse { statuses }
    }
}

} // verus!
