//! A short stream of numbered events, one per second.

use vstd::prelude::*;

use crate::text::decimal_text;

verus! {

/// How many seconds lie between two events.
pub const TICK_SECS: u64 = 1;

/// The number of the last event.
pub const LAST_COUNT: u64 = 10;

/// The name of the events.
pub const COUNTER_EVENT: &'static str = "counter";

/// An event of the stream.
#[derive(Debug)]
pub struct CounterEvent {
    pub data: String,
    pub event: String,
    pub id: String,
}

/// The model of a [`CounterEvent`].
#[verifier::ext_equal]
pub struct Numbered {
    pub data: Seq<char>,
    pub event: Seq<char>,
    pub id: Seq<char>,
}

impl View for CounterEvent {
    type V = Numbered;

    open spec fn view(&self) -> Numbered {
        Numbered { data: self.data@, event: self.event@, id: self.id@ }
    }
}

/// The event number `n`: its data and its id are that number in decimal.
pub open spec fn numbered(n: nat) -> Numbered {
    Numbered {
        data: crate::text::decimal(n),
        event: COUNTER_EVENT@,
        id: crate::text::decimal(n),
    }
}

/// The stream. The view is the number of events that it has given.
pub struct CounterStream {
    count: u64,
}

impl View for CounterStream {
    type V = nat;

    closed spec fn view(&self) -> nat {
        self.count as nat
    }
}

/// The stream, before its first event.
pub fn stream_counter() -> (r: CounterStream)
    ensures
        r@ == 0,
{
    CounterStream { count: 0 }
}

impl CounterStream {
    /// The next event, to be given after the next tick; none once the last has
    /// been given.
    pub fn next_event(&mut self) -> (r: Option<CounterEvent>)
        ensures
            if old(self)@ <= LAST_COUNT {
                &&& r matches Some(event)
                &&& event@ == numbered(old(self)@)
                &&& final(self)@ == old(self)@ + 1
            } else {
                r is None && final(self)@ == old(self)@
            },
    {
        if self.count > LAST_COUNT {
            return None;
        }
        let event = CounterEvent {
            data: decimal_text(self.count),
            event: COUNTER_EVENT.to_owned(),
            id: decimal_text(self.count),
        };
        self.count = self.count + 1;
        Some(event)
    }
}

} // verus!
