//! Comma-separated lists, and the statuses of the channels in them.

use vstd::prelude::*;

use crate::channel_status;
use crate::model::Store;
use crate::store;
use crate::text;

verus! {

/// The comma-separated list of `channels`.
pub open spec fn listed(channels: Seq<Seq<char>>) -> Seq<char>
    decreases channels.len(),
{
    if channels.len() == 0 {
        Seq::empty()
    } else if channels.len() == 1 {
        channels[0]
    } else {
        listed(channels.drop_last()).push(',') + channels.last()
    }
}

/// Tells whether a channel can stand in a comma-separated list as it is.
pub open spec fn plain(channel: Seq<char>) -> bool {
    &&& channel.len() > 0
    &&& !channel.contains(',')
    &&& !text::is_white_space(channel.first())
    &&& !text::is_white_space(channel.last())
}

/// White space is what Unicode has under that name: tab to carriage return,
/// the space, the next-line character, the no-break space, the spaces of the
/// general punctuation, its two separators, and the spaces of Ogham, of
/// mathematics and of ideographic text.
pub proof fn law_white_space_is_that_of_unicode(c: char)
    ensures
        text::is_white_space(c) <==> {
            let n = c as int;
            ||| 9 <= n <= 13
            ||| n == 32
            ||| n == 133
            ||| n == 160
            ||| n == 5760
            ||| 8192 <= n <= 8202
            ||| n == 8232
            ||| n == 8233
            ||| n == 8239
            ||| n == 8287
            ||| n == 12288
        },
{
}

/// Trimming gives the part of a text between two places, such that only white
/// space stands outside it and it neither begins nor ends with any. So a text
/// with no white space at its ends is left as it is.
pub proof fn law_trimming_cuts_white_space_off(s: Seq<char>) -> (r: (int, int))
    ensures
        0 <= r.0 <= r.1 <= s.len(),
        text::trimmed(s) == s.subrange(r.0, r.1),
        forall|i: int| 0 <= i < r.0 ==> text::is_white_space(#[trigger] s[i]),
        forall|i: int| r.1 <= i < s.len() ==> text::is_white_space(#[trigger] s[i]),
        r.0 < r.1 ==> !text::is_white_space(s[r.0]) && !text::is_white_space(s[r.1 - 1]),
        s.len() > 0 && !text::is_white_space(s.first()) && !text::is_white_space(s.last())
            ==> text::trimmed(s) == s,
    decreases s.len(),
{
    if s.len() == 0 {
        assert(s =~= s.subrange(0, 0));
        (0, 0)
    } else if text::is_white_space(s.first()) {
        let rest = s.drop_first();
        let (from, to) = law_trimming_cuts_white_space_off(rest);
        assert(rest.subrange(from, to) =~= s.subrange(from + 1, to + 1));
        assert forall|i: int| 0 <= i < from + 1 implies text::is_white_space(#[trigger] s[i]) by {
            if i > 0 {
                assert(rest[i - 1] == s[i]);
            }
        }
        assert forall|i: int| to + 1 <= i < s.len() implies text::is_white_space(
            #[trigger] s[i],
        ) by {
            assert(rest[i - 1] == s[i]);
        }
        (from + 1, to + 1)
    } else if text::is_white_space(s.last()) {
        let rest = s.drop_last();
        let (from, to) = law_trimming_cuts_white_space_off(rest);
        assert(rest.subrange(from, to) =~= s.subrange(from, to));
        assert forall|i: int| 0 <= i < from implies text::is_white_space(#[trigger] s[i]) by {
            assert(rest[i] == s[i]);
        }
        assert forall|i: int| to <= i < s.len() implies text::is_white_space(#[trigger] s[i]) by {
            if i < rest.len() {
                assert(rest[i] == s[i]);
            }
        }
        (from, to)
    } else {
        assert(s =~= s.subrange(0, s.len() as int));
        (0, s.len() as int)
    }
}

proof fn lemma_pieces_of_joined(a: Seq<char>, b: Seq<char>, sep: char)
    ensures
        text::pieces(b, sep).len() >= 1,
        text::pieces(a.push(sep) + b, sep) == text::pieces(a, sep) + text::pieces(b, sep),
    decreases b.len(),
{
    if b.len() == 0 {
        assert(a.push(sep) + b =~= a.push(sep));
        assert(a.push(sep).drop_last() =~= a);
        assert(text::pieces(a, sep) + text::pieces(b, sep) =~= text::pieces(a, sep).push(
            Seq::empty(),
        ));
    } else {
        lemma_pieces_of_joined(a, b.drop_last(), sep);
        assert((a.push(sep) + b).drop_last() =~= a.push(sep) + b.drop_last());
        assert(text::pieces(a.push(sep) + b, sep) =~= text::pieces(a, sep) + text::pieces(b, sep));
    }
}

/// A text is split at each separator and nowhere else: the pieces of two texts
/// with a separator between them are those of the one and then those of the
/// other, and a text without a separator is its own and only piece.
pub proof fn law_text_is_split_at_separators(a: Seq<char>, b: Seq<char>, sep: char)
    ensures
        text::pieces(a.push(sep) + b, sep) == text::pieces(a, sep) + text::pieces(b, sep),
        !a.contains(sep) ==> text::pieces(a, sep) == seq![a],
{
    lemma_pieces_of_joined(a, b, sep);
    if !a.contains(sep) {
        lemma_one_piece(a, sep);
    }
}

/// A list without a comma has one entry, which is the list without the white
/// space at its ends; or none, where it is all white space.
pub proof fn law_list_without_comma_is_one_entry(s: Seq<char>)
    requires
        !s.contains(','),
    ensures
        text::trimmed(s).len() > 0 ==> text::entries(s) == seq![text::trimmed(s)],
        (forall|i: int| 0 <= i < s.len() ==> text::is_white_space(#[trigger] s[i]))
            ==> text::entries(s) == Seq::<Seq<char>>::empty(),
        text::trimmed(s).len() == 0 ==> text::entries(s) == Seq::<Seq<char>>::empty(),
{
    lemma_one_piece(s, ',');
    let (from, to) = law_trimming_cuts_white_space_off(s);
    let cut = |p: Seq<char>| text::trimmed(p);
    let kept = |p: Seq<char>| p.len() > 0;
    let all = seq![s].map_values(cut);
    assert(all =~= Seq::<Seq<char>>::empty().push(text::trimmed(s)));
    Seq::<Seq<char>>::empty().lemma_filter_push(text::trimmed(s), kept);
    assert(Seq::<Seq<char>>::empty().filter(kept) =~= Seq::empty()) by {
        reveal(Seq::filter);
    }
    assert(Seq::<Seq<char>>::empty().push(text::trimmed(s)) =~= seq![text::trimmed(s)]);
}

proof fn lemma_one_piece(s: Seq<char>, sep: char)
    requires
        !s.contains(sep),
    ensures
        text::pieces(s, sep) == seq![s],
    decreases s.len(),
{
    if s.len() == 0 {
        assert(s =~= Seq::empty());
    } else {
        let front = s.drop_last();
        assert(!front.contains(sep)) by {
            if front.contains(sep) {
                let i = choose|i: int| 0 <= i < front.len() && front[i] == sep;
                assert(s[i] == sep);
            }
        }
        assert(s[s.len() - 1] == s.last());
        lemma_one_piece(front, sep);
        assert(front.push(s.last()) =~= s);
        assert(text::pieces(s, sep) =~= seq![s]);
    }
}

proof fn lemma_pieces_of_list(channels: Seq<Seq<char>>)
    requires
        channels.len() > 0,
        forall|i: int| 0 <= i < channels.len() ==> plain(#[trigger] channels[i]),
    ensures
        text::pieces(listed(channels), ',') == channels,
    decreases channels.len(),
{
    assert(plain(channels[channels.len() - 1]));
    if channels.len() == 1 {
        lemma_one_piece(channels[0], ',');
        assert(seq![channels[0]] =~= channels);
    } else {
        let front = channels.drop_last();
        lemma_pieces_of_list(front);
        lemma_pieces_of_joined(listed(front), channels.last(), ',');
        lemma_one_piece(channels.last(), ',');
        assert(front + seq![channels.last()] =~= channels);
    }
}

proof fn lemma_filter_keeps_all(s: Seq<Seq<char>>, p: spec_fn(Seq<char>) -> bool)
    requires
        forall|i: int| 0 <= i < s.len() ==> p(#[trigger] s[i]),
    ensures
        s.filter(p) == s,
    decreases s.len(),
{
    reveal(Seq::filter);
    if s.len() > 0 {
        lemma_filter_keeps_all(s.drop_last(), p);
        assert(p(s[s.len() - 1]));
        assert(s.drop_last().push(s.last()) =~= s);
    }
}

/// The channels of a comma-separated list are read back from it, in order.
pub proof fn law_comma_list_is_read_back(channels: Seq<Seq<char>>)
    requires
        forall|i: int| 0 <= i < channels.len() ==> plain(#[trigger] channels[i]),
    ensures
        text::entries(listed(channels)) == channels,
{
    reveal(Seq::filter);
    let cut = |p: Seq<char>| text::trimmed(p);
    let kept = |p: Seq<char>| p.len() > 0;
    if channels.len() == 0 {
        let all = text::pieces(listed(channels), ',').map_values(cut);
        assert(all =~= seq![Seq::<char>::empty()]);
        assert(all.drop_last().filter(kept) =~= Seq::empty());
        assert(!kept(all.last()));
        assert(all.filter(kept) =~= Seq::empty());
        assert(channels =~= Seq::empty());
    } else {
        lemma_pieces_of_list(channels);
        assert(channels.map_values(cut) =~= channels) by {
            assert forall|i: int| 0 <= i < channels.len() implies #[trigger] channels.map_values(
                cut,
            )[i] == channels[i] by {
                assert(plain(channels[i]));
            }
        }
        assert forall|i: int| 0 <= i < channels.len() implies kept(#[trigger] channels[i]) by {
            assert(plain(channels[i]));
        }
        lemma_filter_keeps_all(channels, kept);
    }
}

proof fn lemma_pieces_have_no_separator(s: Seq<char>, sep: char)
    ensures
        text::pieces(s, sep).len() >= 1,
        forall|i: int|
            0 <= i < text::pieces(s, sep).len() ==> !(#[trigger] text::pieces(s, sep)[i]).contains(
                sep,
            ),
    decreases s.len(),
{
    if s.len() > 0 {
        let before = text::pieces(s.drop_last(), sep);
        lemma_pieces_have_no_separator(s.drop_last(), sep);
        assert(!before[before.len() - 1].contains(sep));
        if s.last() != sep {
            let grown = before.last().push(s.last());
            assert(!grown.contains(sep)) by {
                if grown.contains(sep) {
                    let i = choose|i: int| 0 <= i < grown.len() && grown[i] == sep;
                    assert(before.last()[i] == sep);
                }
            }
        }
    }
}

/// Whatever the text, the entries of a comma-separated list are not empty,
/// hold no comma and have no white space at their ends.
pub proof fn law_list_entries_are_plain(s: Seq<char>)
    ensures
        forall|i: int| 0 <= i < text::entries(s).len() ==> plain(#[trigger] text::entries(s)[i]),
{
    let cut = |p: Seq<char>| text::trimmed(p);
    let kept = |p: Seq<char>| p.len() > 0;
    let parts = text::pieces(s, ',');
    let all = parts.map_values(cut);
    lemma_pieces_have_no_separator(s, ',');
    assert forall|i: int| 0 <= i < text::entries(s).len() implies plain(
        #[trigger] text::entries(s)[i],
    ) by {
        let entry = text::entries(s)[i];
        assert(all.filter(kept)[i] == entry);
        assert(kept(entry));
        assert(all.filter(kept).contains(entry));
        all.lemma_filter_contains_rev(kept, entry);
        let k = choose|k: int| 0 <= k < all.len() && all[k] == entry;
        assert(entry == text::trimmed(parts[k]));
        let (from, to) = law_trimming_cuts_white_space_off(parts[k]);
        assert(entry.first() == parts[k][from] && entry.last() == parts[k][to - 1]);
        if entry.contains(',') {
            let c = choose|c: int| 0 <= c < entry.len() && entry[c] == ',';
            assert(parts[k][from + c] == ',');
        }
    }
}

/// The statuses that the store gives for a comma-separated list of channels.
pub open spec fn statuses(store: Store, channels: Seq<char>) -> Seq<bool> {
    channel_status::statuses_of(
        store.texts_at(store::last_seen_keys_of(text::entries(channels))),
    )
}

/// Two lists joined by a comma have the entries of the first and then those of
/// the second, whatever the lists; so their statuses are those of the first,
/// followed by those of the second.
pub proof fn law_joined_lists_are_read_one_after_the_other(
    store: Store,
    a: Seq<char>,
    b: Seq<char>,
)
    ensures
        text::entries(a.push(',') + b) == text::entries(a) + text::entries(b),
        statuses(store, a.push(',') + b) == statuses(store, a) + statuses(store, b),
{
    let cut = |p: Seq<char>| text::trimmed(p);
    let kept = |p: Seq<char>| p.len() > 0;
    let left = text::pieces(a, ',');
    let right = text::pieces(b, ',');
    lemma_pieces_of_joined(a, b, ',');
    assert((left + right).map_values(cut) =~= left.map_values(cut) + right.map_values(cut));
    Seq::filter_distributes_over_add(left.map_values(cut), right.map_values(cut), kept);
    assert(statuses(store, a.push(',') + b) =~= statuses(store, a) + statuses(store, b));
}

} // verus!
