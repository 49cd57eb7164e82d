//! The instance: its identity, its channel, its paths and its connections.

use vstd::prelude::*;

use crate::text::join;

verus! {

/// The name of the service. Its channels and its paths begin with it.
pub const SERVICE_PREFIX: &'static str = "presence";

/// The realm in which the instance joins the broker.
pub const REALM: &'static str = "ginger-society";

/// Tells whether `c` is a hexadecimal digit in lower case.
pub open spec fn is_lower_hex(c: char) -> bool {
    '0' <= c <= '9' || 'a' <= c <= 'f'
}

/// Tells whether `s` is a random UUID in its hyphenated form.
pub open spec fn is_random_uuid(s: Seq<char>) -> bool {
    &&& s.len() == 36
    &&& forall|i: int|
        0 <= i < 36 ==> if i == 8 || i == 13 || i == 18 || i == 23 {
            #[trigger] s[i] == '-'
        } else {
            is_lower_hex(s[i])
        }
    &&& s[14] == '4'
    &&& s[19] == '8' || s[19] == '9' || s[19] == 'a' || s[19] == 'b'
}

/// Calls `uuid::Uuid::new_v4` and renders what it gives.
///
/// Believed of it: whatever the random bits, the text is a random UUID in its
/// hyphenated form, in lower case. Which one it is stays open; that no two are
/// the same is a matter of chance, and not stated. `new_v4` panics where the
/// machine gives no random bytes.
#[verifier::external_body]
pub(crate) fn fresh_uuid() -> (r: String)
    ensures
        is_random_uuid(r@),
{
    uuid::Uuid::new_v4().to_string()
}

/// The prefix of the channel of the instance `id`.
pub open spec fn prefix_of(id: Seq<char>) -> Seq<char> {
    SERVICE_PREFIX@ + "-"@ + id
}

/// The identity of the instance whose channel has the prefix `prefix`.
pub open spec fn id_in(prefix: Seq<char>) -> Seq<char> {
    prefix.skip(SERVICE_PREFIX@.len() as int + 1)
}

/// The channel of a client with `prefix` in `realm`.
pub open spec fn channel_of(prefix: Seq<char>, realm: Seq<char>) -> Seq<char> {
    prefix + "_"@ + realm
}

/// Names the prefix of the channel of the instance `id`.
pub fn instance_prefix(id: &str) -> (r: String)
    ensures
        r@ == prefix_of(id@),
{
    join(join(SERVICE_PREFIX, "-").as_str(), id)
}

/// Picks an identity for a new instance and names the prefix of its channel.
pub fn new_instance_prefix() -> (r: String)
    ensures
        r@ == prefix_of(id_in(r@)),
        is_random_uuid(id_in(r@)),
{
    let id: String = fresh_uuid();
    let r: String = instance_prefix(id.as_str());
    proof {
        reveal_strlit("-");
    }
    assert(id_in(r@) =~= id@);
    r
}

/// Names the channel of a client with `prefix` in `realm`.
pub fn channel_name(prefix: &str, realm: &str) -> (r: String)
    ensures
        r@ == channel_of(prefix@, realm@),
{
    join(join(prefix, "_").as_str(), realm)
}

/// A message to a client.
#[derive(Debug)]
pub struct MessageResponse {
    pub message: String,
}

/// Tells a device the channel of this instance.
pub fn index(channel: &str) -> (r: MessageResponse)
    ensures
        r.message@ == channel@,
{
    MessageResponse { message: channel.to_owned() }
}

/// Names the path under which the service serves `section`.
pub fn mount_point(section: &str) -> (r: String)
    ensures
        r@ == "/"@ + SERVICE_PREFIX@ + "/"@ + section@,
{
    join(join(join("/", SERVICE_PREFIX).as_str(), "/").as_str(), section)
}

/// Whether to connect to the document database.
pub enum MongoPlan {
    /// Connect to this database at this address.
    Connect { uri: String, database: String },
    /// Do not connect: the name of the database is missing.
    MissingDatabase,
    /// Do not connect: the address is missing.
    MissingUri,
}

/// Decides whether to connect to the document database, from its address and
/// the name of the database. The address is looked at first.
pub fn plan_mongo(uri: Option<String>, database: Option<String>) -> (r: MongoPlan)
    ensures
        r == match (uri, database) {
            (Some(uri), Some(database)) => MongoPlan::Connect { uri, database },
            (Some(_), None) => MongoPlan::MissingDatabase,
            (None, _) => MongoPlan::MissingUri,
        },
{
    match uri {
        Some(uri) => match database {
            Some(database) => MongoPlan::Connect { uri, database },
            None => MongoPlan::MissingDatabase,
        },
        None => MongoPlan::MissingUri,
    }
}

} // verus!
