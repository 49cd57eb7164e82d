//! JSON values as the service reads and writes them, and the text form of a
//! list of strings.

use vstd::prelude::*;

verus! {

/// A JSON value.
///
/// A number is kept as its text. An object lists its fields; where a key
/// occurs more than once the last occurrence counts.
#[derive(Debug)]
pub enum Json {
    Null,
    Bool(bool),
    Number(String),
    Text(String),
    Array(Vec<Json>),
    Object(Vec<(String, Json)>),
}

/// The value that `fields` gives to `key`.
pub open spec fn field_of(fields: Seq<(String, Json)>, key: Seq<char>) -> Option<Json>
    decreases fields.len(),
{
    if fields.len() == 0 {
        None
    } else if fields.last().0@ == key {
        Some(fields.last().1)
    } else {
        field_of(fields.drop_last(), key)
    }
}

/// The text values among `items`, in order.
pub open spec fn texts_among(items: Seq<Json>) -> Seq<Seq<char>>
    decreases items.len(),
{
    if items.len() == 0 {
        Seq::empty()
    } else {
        match items.last() {
            Json::Text(t) => texts_among(items.drop_last()).push(t@),
            _ => texts_among(items.drop_last()),
        }
    }
}

impl Json {
    /// The value of the field `key`; only an object has fields.
    pub open spec fn field(self, key: Seq<char>) -> Option<Json> {
        match self {
            Json::Object(fields) => field_of(fields@, key),
            _ => None,
        }
    }

    /// Tells whether the value is the object whose only field is `key`, with
    /// the text `value`.
    pub open spec fn is_single(self, key: Seq<char>, value: Seq<char>) -> bool {
        &&& self matches Json::Object(fields)
        &&& fields@.len() == 1
        &&& fields@[0].0@ == key
        &&& fields@[0].1 matches Json::Text(t)
        &&& t@ == value
    }

    /// Reads the field `key`.
    pub fn get(&self, key: &str) -> (r: Option<&Json>)
        ensures
            match r {
                Some(v) => self.field(key@) == Some(*v),
                None => self.field(key@) is None,
            },
    {
        match self {
            Json::Object(fields) => {
                let wanted: String = key.to_owned();
                let mut i: usize = fields.len();
                assert(fields@.take(i as int) == fields@);
                while i > 0
                    invariant
                        i <= fields@.len(),
                        wanted@ == key@,
                        *self == Json::Object(*fields),
                        field_of(fields@, key@) == field_of(fields@.take(i as int), key@),
                    decreases i,
                {
                    let last: usize = i - 1;
                    assert(fields@.take(i as int).drop_last() == fields@.take(last as int));
                    if fields[last].0 == wanted {
                        return Some(&fields[last].1);
                    }
                    i = last;
                }
                None
            },
            _ => None,
        }
    }

    /// The text, where the value is one.
    pub fn as_text(&self) -> (r: Option<&String>)
        ensures
            match r {
                Some(t) => *self == Json::Text(*t),
                None => !(self is Text),
            },
    {
        match self {
            Json::Text(t) => Some(t),
            _ => None,
        }
    }

    /// The items, where the value is an array.
    pub fn as_array(&self) -> (r: Option<&Vec<Json>>)
        ensures
            match r {
                Some(items) => *self == Json::Array(*items),
                None => !(self is Array),
            },
    {
        match self {
            Json::Array(items) => Some(items),
            _ => None,
        }
    }

    /// The object whose only field is `key`, with the text `value`.
    pub fn single(key: &str, value: &str) -> (r: Json)
        ensures
            r.is_single(key@, value@),
    {
        let mut fields: Vec<(String, Json)> = Vec::new();
        fields.push((key.to_owned(), Json::Text(value.to_owned())));
        Json::Object(fields)
    }
}

/// Collects the text values among `items`; the others are passed over.
pub fn collect_texts(items: &Vec<Json>) -> (r: Vec<String>)
    ensures
        r.deep_view() == texts_among(items@),
{
    let mut out: Vec<String> = Vec::new();
    let mut i: usize = 0;
    assert(out.deep_view() == texts_among(items@.take(0)));
    while i < items.len()
        invariant
            i <= items@.len(),
            out.deep_view() == texts_among(items@.take(i as int)),
        decreases items@.len() - i,
    {
        let ghost before = out.deep_view();
        assert(items@.take(i + 1).drop_last() == items@.take(i as int));
        if let Some(t) = items[i].as_text() {
            out.push(t.clone());
            assert(out.deep_view() == before.push(t@));
        }
        i = i + 1;
    }
    assert(items@.take(i as int) == items@);
    out
}

/// The error type of `serde_json`, carried through unread.
#[verifier::external_type_specification]
#[verifier::external_body]
pub struct ExSerdeJsonError(serde_json::Error);

/// The text that `serde_json::to_string` gives for a list of strings.
pub uninterp spec fn encoded_texts(list: Seq<Seq<char>>) -> Seq<char>;

/// What `serde_json::from_str` reads from a text as a list of strings: the
/// list, or nothing where the text is not the JSON of one.
pub uninterp spec fn decoded_texts(text: Seq<char>) -> Option<Seq<Seq<char>>>;

/// Calls `serde_json::to_string` on a list of strings.
///
/// Believed of it: it succeeds, since neither of the two ways in which it can
/// fail (a `Serialize` impl that decides to, a map whose keys are not
/// strings) is open to a list of strings; the text depends on the list alone;
/// and `serde_json::from_str` reads the same list back from it.
#[verifier::external_body]
fn encode(list: &Vec<String>) -> (r: Result<String, serde_json::Error>)
    ensures
        r is Ok,
        r->Ok_0@ == encoded_texts(list.deep_view()),
        decoded_texts(r->Ok_0@) == Some(list.deep_view()),
{
    serde_json::to_string(list)
}

/// Calls `serde_json::from_str` for a list of strings.
///
/// Believed of it: whether it succeeds, and with which list, depends on the
/// text alone.
#[verifier::external_body]
fn decode(text: &str) -> (r: Result<Vec<String>, serde_json::Error>)
    ensures
        r is Ok <==> decoded_texts(text@) is Some,
        r is Ok ==> decoded_texts(text@) == Some(r->Ok_0.deep_view()),
{
    serde_json::from_str(text)
}

/// Writes a list of strings as JSON text.
///
/// [`decode_texts`] reads the same list back.
pub fn encode_texts(list: &Vec<String>) -> (r: String)
    ensures
        r@ == encoded_texts(list.deep_view()),
        decoded_texts(r@) == Some(list.deep_view()),
{
    match encode(list) {
        Ok(text) => text,
        Err(_) => vstd::pervasive::unreached(),
    }
}

/// Reads a list of strings from JSON text.
pub fn decode_texts(text: &str) -> (r: Option<Vec<String>>)
    ensures
        r.deep_view() == decoded_texts(text@),
{
    match decode(text) {
        Ok(list) => Some(list),
        Err(_) => None,
    }
}

} // verus!
