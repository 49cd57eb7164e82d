//! The form of a time.

use vstd::prelude::*;

use crate::clock;
use crate::clock::Moment;

verus! {

/// The value of a decimal digit.
pub open spec fn digit_at(s: Seq<char>, i: int) -> int {
    s[i] as int - 48
}

proof fn lemma_two_digits(n: nat)
    requires
        n < 100,
    ensures
        ({
            let s = clock::padded(n, 2);
            &&& s.len() == 2
            &&& 0 <= digit_at(s, 0) <= 9 && 0 <= digit_at(s, 1) <= 9
            &&& 10 * digit_at(s, 0) + digit_at(s, 1) == n
        }),
{
    reveal_with_fuel(clock::padded, 3);
}

proof fn lemma_padded_len(n: nat, width: nat)
    ensures
        clock::padded(n, width).len() == width,
    decreases width,
{
    if width > 0 {
        lemma_padded_len(n / 10, (width - 1) as nat);
    }
}

/// In the years to 9999 the parts of a time stand at fixed places: the year in
/// the first four characters, the month, the day, the hour, the minute and the
/// second in two each, and the offset at the end; between them stands nothing, or
/// a point and three, six or nine digits.
pub proof fn law_parts_of_a_time_have_their_places(m: Moment)
    requires
        m.well_formed(),
        m.year <= 9999,
    ensures
        1970 <= m.year,
        1 <= m.month <= 12 && 1 <= m.day <= 31 && m.hour <= 23 && m.minute <= 59 && m.second <= 59,
        ({
            let s = clock::rfc3339(m);
            &&& s.len() == 25 || s.len() == 29 || s.len() == 32 || s.len() == 35
            &&& s.len() == 25 <==> m.nanosecond == 0
            &&& 1000 * digit_at(s, 0) + 100 * digit_at(s, 1) + 10 * digit_at(s, 2) + digit_at(s, 3)
                == m.year
            &&& s[4] == '-' && 10 * digit_at(s, 5) + digit_at(s, 6) == m.month
            &&& s[7] == '-' && 10 * digit_at(s, 8) + digit_at(s, 9) == m.day
            &&& s[10] == 'T' && 10 * digit_at(s, 11) + digit_at(s, 12) == m.hour
            &&& s[13] == ':' && 10 * digit_at(s, 14) + digit_at(s, 15) == m.minute
            &&& s[16] == ':' && 10 * digit_at(s, 17) + digit_at(s, 18) == m.second
            &&& s.len() > 25 ==> s[19] == '.'
            &&& s.skip(s.len() - 6) == "+00:00"@
        }),
{
    reveal_strlit("-");
    reveal_strlit("T");
    reveal_strlit(":");
    reveal_strlit(".");
    reveal_strlit("+00:00");
    lemma_two_digits(m.month);
    lemma_two_digits(m.day);
    lemma_two_digits(m.hour);
    lemma_two_digits(m.minute);
    lemma_two_digits(m.second);
    lemma_padded_len(m.nanosecond / 1_000_000, 3);
    lemma_padded_len(m.nanosecond / 1_000, 6);
    lemma_padded_len(m.nanosecond, 9);
    let year = clock::padded(m.year, 4);
    assert(year.len() == 4 && 1000 * digit_at(year, 0) + 100 * digit_at(year, 1) + 10 * digit_at(
        year,
        2,
    ) + digit_at(year, 3) == m.year) by {
        reveal_with_fuel(clock::padded, 5);
    }
    let s = clock::rfc3339(m);
    assert(s.skip(s.len() - 6) =~= "+00:00"@);
}

} // verus!
