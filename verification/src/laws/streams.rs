//! The stream of numbered events.

use vstd::prelude::*;

use crate::counter;
use crate::text;

verus! {

/// The events that a stream gives which has given `count` so far.
pub open spec fn events_from(count: nat) -> Seq<counter::Numbered>
    decreases counter::LAST_COUNT + 1 - count,
{
    if count > counter::LAST_COUNT {
        Seq::empty()
    } else {
        seq![counter::numbered(count)] + events_from(count + 1)
    }
}

/// A stream gives the events numbered from where it stands to ten, in order,
/// and ends. So a new one gives eleven.
pub proof fn law_stream_counts_to_ten(count: nat)
    requires
        count <= 11,
    ensures
        events_from(count).len() == 11 - count,
        forall|i: int|
            0 <= i < 11 - count ==> #[trigger] events_from(count)[i] == counter::numbered(
                (count + i) as nat,
            ),
    decreases 11 - count,
{
    if count <= 10 {
        law_stream_counts_to_ten(count + 1);
        assert forall|i: int| 0 <= i < 11 - count implies #[trigger] events_from(count)[i]
            == counter::numbered((count + i) as nat) by {
            if i > 0 {
                assert(events_from(count)[i] == events_from(count + 1)[i - 1]);
            }
        }
    }
}

/// Two numbers are written alike only if they are the same number, so the ids
/// of the events of a stream differ.
pub proof fn law_decimals_differ(a: nat, b: nat)
    requires
        text::decimal(a) == text::decimal(b),
    ensures
        a == b,
    decreases a,
{
    assert(text::digit(a % 10) as nat == '0' as nat + a % 10);
    assert(text::digit(b % 10) as nat == '0' as nat + b % 10);
    if a < 10 && b < 10 {
        assert(text::decimal(a)[0] == text::digit(a % 10));
        assert(text::decimal(b)[0] == text::digit(b % 10));
    } else {
        lemma_decimal_len(a);
        lemma_decimal_len(b);
        assert(text::decimal(a).last() == text::digit(a % 10));
        assert(text::decimal(b).last() == text::digit(b % 10));
        assert(text::decimal(a).drop_last() =~= text::decimal(a / 10));
        assert(text::decimal(b).drop_last() =~= text::decimal(b / 10));
        law_decimals_differ(a / 10, b / 10);
        assert(a % 10 == b % 10);
        assert(a == 10 * (a / 10) + a % 10);
    }
}

proof fn lemma_decimal_len(n: nat)
    ensures
        text::decimal(n).len() >= 1,
        n >= 10 ==> text::decimal(n).len() >= 2,
    decreases n,
{
    if n >= 10 {
        lemma_decimal_len(n / 10);
    }
}

/// Numbers are written in decimal: a number below ten by the digit that stands
/// for it, any other by its tens, followed by its last digit.
pub proof fn law_numbers_are_written_in_decimal(n: nat, d: nat)
    requires
        d < 10,
    ensures
        text::decimal(d).len() == 1,
        text::decimal(d)[0] as int == 48 + d,
        n > 0 ==> text::decimal(10 * n + d) == text::decimal(n) + text::decimal(d),
{
    if n > 0 {
        assert((10 * n + d) / 10 == n && (10 * n + d) % 10 == d);
        assert(text::decimal(10 * n + d) =~= text::decimal(n) + text::decimal(d));
    }
}

/// An event of the stream has the name `counter`, and its number for data and
/// for id.
pub proof fn law_events_carry_their_number(n: nat, event: counter::CounterEvent)
    ensures
        event@ == counter::numbered(n) ==> {
            &&& event.event@ == "counter"@
            &&& event.data@ == text::decimal(n)
            &&& event.id@ == text::decimal(n)
        },
        counter::LAST_COUNT == 10,
        counter::TICK_SECS == 1,
{
}

} // verus!
