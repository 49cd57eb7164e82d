//! What is read of a call.

use vstd::prelude::*;

use crate::heartbeat;
use crate::heartbeat::{Heartbeat, HeartbeatError};
use crate::json;
use crate::json::Json;

verus! {

/// The field of an object is the last one with its key; where there is none
/// with that key, and in a value that is no object, there is no such field.
pub proof fn law_last_field_counts(value: Json, key: Seq<char>)
    ensures
        match value {
            Json::Object(fields) => match value.field(key) {
                Some(found) => exists|i: int|
                    0 <= i < fields@.len() && (#[trigger] fields@[i]).0@ == key && fields@[i].1
                        == found && forall|j: int|
                        i < j < fields@.len() ==> (#[trigger] fields@[j]).0@ != key,
                None => forall|j: int| 0 <= j < fields@.len() ==> (#[trigger] fields@[j]).0@ != key,
            },
            _ => value.field(key) is None,
        },
{
    if let Json::Object(fields) = value {
        lemma_last_field(fields@, key);
    }
}

proof fn lemma_last_field(fields: Seq<(String, Json)>, key: Seq<char>)
    ensures
        match json::field_of(fields, key) {
            Some(found) => exists|i: int|
                0 <= i < fields.len() && (#[trigger] fields[i]).0@ == key && fields[i].1 == found
                    && forall|j: int| i < j < fields.len() ==> (#[trigger] fields[j]).0@ != key,
            None => forall|j: int| 0 <= j < fields.len() ==> (#[trigger] fields[j]).0@ != key,
        },
    decreases fields.len(),
{
    if fields.len() > 0 {
        let last = fields.len() - 1;
        assert(fields[last] == fields.last());
        if fields.last().0@ != key {
            let front = fields.drop_last();
            lemma_last_field(front, key);
            match json::field_of(front, key) {
                Some(found) => {
                    let i = choose|i: int|
                        0 <= i < front.len() && (#[trigger] front[i]).0@ == key && front[i].1
                            == found && forall|j: int|
                            i < j < front.len() ==> (#[trigger] front[j]).0@ != key;
                    assert(fields[i].0@ == key && fields[i].1 == found);
                    assert forall|j: int| i < j < fields.len() implies (#[trigger] fields[j]).0@
                        != key by {
                        if j < last {
                            assert(front[j] == fields[j]);
                        }
                    }
                },
                None => {
                    assert forall|j: int| 0 <= j < fields.len() implies (#[trigger] fields[j]).0@
                        != key by {
                        if j < last {
                            assert(front[j] == fields[j]);
                        }
                    }
                },
            }
        }
    }
}

/// The texts of two lists put together are those of the one and then those of
/// the other; a text on its own gives itself, and any other value nothing.
pub proof fn law_texts_are_collected_one_by_one(a: Seq<Json>, b: Seq<Json>, item: Json)
    ensures
        json::texts_among(a + b) == json::texts_among(a) + json::texts_among(b),
        json::texts_among(seq![item]) == match item {
            Json::Text(t) => seq![t@],
            _ => Seq::empty(),
        },
    decreases b.len(),
{
    reveal_with_fuel(json::texts_among, 2);
    assert(seq![item].drop_last() =~= Seq::empty());
    assert(json::texts_among(seq![item]) =~= match item {
        Json::Text(t) => seq![t@],
        _ => Seq::empty(),
    });
    if b.len() == 0 {
        assert(a + b =~= a);
        assert(json::texts_among(a) + json::texts_among(b) =~= json::texts_among(a));
    } else {
        law_texts_are_collected_one_by_one(a, b.drop_last(), item);
        assert((a + b).drop_last() =~= a + b.drop_last());
        assert((a + b).last() == b.last());
        assert(json::texts_among(a + b) =~= json::texts_among(a) + json::texts_among(b));
    }
}

/// Of a list of texts all are collected, each in its place.
pub proof fn law_all_texts_are_collected(items: Seq<Json>)
    requires
        forall|i: int| 0 <= i < items.len() ==> (#[trigger] items[i]) is Text,
    ensures
        json::texts_among(items).len() == items.len(),
        forall|i: int|
            0 <= i < items.len() ==> #[trigger] json::texts_among(items)[i] == items[i]->Text_0@,
    decreases items.len(),
{
    if items.len() > 0 {
        let front = items.drop_last();
        assert(items[items.len() - 1] is Text);
        assert forall|i: int| 0 <= i < front.len() implies (#[trigger] front[i]) is Text by {
            assert(front[i] == items[i]);
        }
        law_all_texts_are_collected(front);
    }
}

/// A text is collected just where it is among the items; and there are never
/// more texts than items.
pub proof fn law_collected_texts_are_among_the_items(items: Seq<Json>, text: Seq<char>)
    ensures
        json::texts_among(items).len() <= items.len(),
        json::texts_among(items).contains(text) <==> exists|i: int|
            0 <= i < items.len() && ((#[trigger] items[i]) matches Json::Text(t) && t@ == text),
    decreases items.len(),
{
    if items.len() > 0 {
        let front = items.drop_last();
        let last = items.len() - 1;
        law_collected_texts_are_among_the_items(front, text);
        assert(items.last() == items[last]);
        let found = json::texts_among(items);
        let before = json::texts_among(front);
        if before.contains(text) {
            let i = choose|i: int|
                0 <= i < front.len() && ((#[trigger] front[i]) matches Json::Text(t) && t@ == text);
            assert(items[i] == front[i]);
            let k = choose|k: int| 0 <= k < before.len() && before[k] == text;
            assert(found[k] == text);
        }
        if items.last() matches Json::Text(t) && t@ == text {
            assert(found[found.len() - 1] == text);
        }
        if found.contains(text) && !before.contains(text) {
            let k = choose|k: int| 0 <= k < found.len() && found[k] == text;
            if k < before.len() {
                assert(before[k] == text);
            }
            assert(items.last() matches Json::Text(t) && t@ == text);
        }
        if exists|i: int|
            0 <= i < items.len() && ((#[trigger] items[i]) matches Json::Text(t) && t@ == text) {
            let i = choose|i: int|
                0 <= i < items.len() && ((#[trigger] items[i]) matches Json::Text(t) && t@ == text);
            if i < last {
                assert(front[i] == items[i]);
            }
        }
    }
}

/// A call with a text under `device_channel` and an array under `capabilities`
/// reports just that channel, the texts of that array, and as metrics the text
/// under `metrics_text`: each of any length, character for character.
pub proof fn law_call_is_read_as_it_stands(call: Json, channel: String, items: Vec<Json>)
    requires
        call.field("device_channel"@) == Some(Json::Text(channel)),
        call.field("capabilities"@) == Some(Json::Array(items)),
    ensures
        heartbeat::report_of(Some(call)) is Ok,
        ({
            let report = heartbeat::report_of(Some(call))->Ok_0;
            &&& report.channel == channel@
            &&& report.capabilities == json::texts_among(items@)
            &&& (forall|i: int| 0 <= i < items@.len() ==> (#[trigger] items@[i]) is Text) ==> {
                &&& report.capabilities.len() == items@.len()
                &&& forall|i: int|
                    0 <= i < items@.len() ==> #[trigger] report.capabilities[i]
                        == items@[i]->Text_0@
            }
            &&& match call.field("metrics_text"@) {
                Some(Json::Text(text)) => report.metrics == Some(text@),
                _ => report.metrics is None,
            }
        }),
{
    if forall|i: int| 0 <= i < items@.len() ==> (#[trigger] items@[i]) is Text {
        law_all_texts_are_collected(items@);
    }
}

/// Any other call is refused, for the first thing that it lacks.
pub proof fn law_other_calls_are_refused(call: Json)
    ensures
        heartbeat::report_of(None) == Err::<heartbeat::Report, _>(HeartbeatError::MissingKwargs),
        !(call.field("device_channel"@) matches Some(Json::Text(_))) ==> heartbeat::report_of(
            Some(call),
        ) == Err::<heartbeat::Report, _>(HeartbeatError::MissingDeviceChannel),
        call.field("device_channel"@) matches Some(Json::Text(_)) && !(call.field("capabilities"@)
            matches Some(Json::Array(_))) ==> heartbeat::report_of(Some(call)) == Err::<
            heartbeat::Report,
            _,
        >(HeartbeatError::MissingCapabilities),
        HeartbeatError::MissingKwargs.message_text() == "missing kwargs"@,
        HeartbeatError::MissingDeviceChannel.message_text() == "missing 'device_channel'"@,
        HeartbeatError::MissingCapabilities.message_text()
            == "missing 'capabilities' (expected array)"@,
{
}

/// The model of a heartbeat says what the heartbeat says.
pub proof fn law_heartbeats_are_modelled_as_they_are(heartbeat: Heartbeat)
    ensures
        heartbeat@.channel == heartbeat.device_channel@,
        heartbeat@.capabilities.len() == heartbeat.capabilities@.len(),
        forall|i: int|
            0 <= i < heartbeat.capabilities@.len() ==> #[trigger] heartbeat@.capabilities[i]
                == heartbeat.capabilities@[i]@,
        heartbeat@.metrics == match heartbeat.metrics_text {
            Some(text) => Some(text@),
            None => None,
        },
{
}

/// An answer with one field has that text under that key, and nothing under
/// any other.
pub proof fn law_answer_has_one_field(
    answer: Json,
    key: Seq<char>,
    value: Seq<char>,
    other: Seq<char>,
)
    requires
        answer.is_single(key, value),
    ensures
        answer.field(key) matches Some(Json::Text(t)) && t@ == value,
        other != key ==> answer.field(other) is None,
        answer matches Json::Object(fields) && fields@.len() == 1,
{
    reveal_with_fuel(json::field_of, 2);
}

} // verus!
