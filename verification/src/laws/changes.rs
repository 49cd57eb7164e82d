//! What holds of the store, whatever happens to it.

use vstd::prelude::*;

use crate::model;
use crate::model::{Change, Store};
use crate::store;
use crate::store::{StoreWrite, Write};

verus! {

/// Every write keeps the store well formed, and so does the passing of time.
pub proof fn law_changes_keep_the_store_well_formed(store: Store, change: Change)
    requires
        store.well_formed(),
    ensures
        store.changed(change).well_formed(),
{
    match change {
        Change::Asked(Write::AddMember { key, member }) => {
            assert(store.members(key).insert(member).contains(member));
        },
        _ => {},
    }
}

/// A key that is left alone keeps what it holds until it expires, and holds
/// nothing from then on.
pub proof fn law_untouched_key_lasts(store: Store, key: Seq<char>, changes: Seq<Change>)
    requires
        model::untouched(store, changes, key),
    ensures
        ({
            let later = store.through(changes);
            if store.lasts(key, model::seconds_in(changes)) {
                &&& later.text(key) == store.text(key)
                &&& later.members(key) == store.members(key)
                &&& later.expiry(key) == match store.expiry(key) {
                    Some(left) => Some((left - model::seconds_in(changes)) as nat),
                    None => None,
                }
            } else {
                &&& !later.holds(key)
                &&& later.expiry(key) is None
            }
        }),
    decreases changes.len(),
{
    if changes.len() > 0 {
        let before = changes.drop_last();
        assert forall|i: int| 0 <= i < before.len() implies store.through(before.take(i)).leaves(
            #[trigger] before[i],
            key,
        ) by {
            assert(before[i] == changes[i]);
            assert(before.take(i) =~= changes.take(i));
        }
        law_untouched_key_lasts(store, key, before);
        let last = changes.len() - 1;
        assert(changes.take(last) =~= before);
        assert(store.through(changes.take(last)).leaves(changes[last], key));
    }
}

/// The writes of a run are made in order, up to the first that fails.
pub proof fn law_run_stops_at_the_first_failure(writes: Seq<Write>, outcomes: Seq<bool>)
    ensures
        ({
            let n = model::made(writes, outcomes).len() as int;
            &&& n <= writes.len() && n <= outcomes.len()
            &&& model::made(writes, outcomes) == writes.take(n)
            &&& forall|i: int| 0 <= i < n ==> #[trigger] outcomes[i]
            &&& n < writes.len() && n < outcomes.len() ==> !outcomes[n]
        }),
    decreases writes.len(),
{
    if writes.len() == 0 || outcomes.len() == 0 || !outcomes[0] {
        assert(model::made(Seq::<Write>::empty(), outcomes.skip(1)) =~= Seq::empty());
        assert(model::made(writes, outcomes) =~= writes.take(0));
    } else {
        law_run_stops_at_the_first_failure(writes.skip(1), outcomes.skip(1));
        let n = model::made(writes, outcomes).len() as int;
        assert(model::made(writes, outcomes) =~= writes.take(n));
        assert forall|i: int| 0 <= i < n implies #[trigger] outcomes[i] by {
            if i > 0 {
                assert(outcomes.skip(1)[i - 1]);
            }
        }
        if n < writes.len() && n < outcomes.len() {
            assert(outcomes.skip(1)[n - 1] == outcomes[n]);
        }
    }
}

/// The model of a write says what the write says: which write it is, its key,
/// its value or member, and when it expires.
pub proof fn law_writes_are_modelled_as_they_are(write: StoreWrite)
    ensures
        write.deep_view() == write@,
        match write {
            StoreWrite::Put { key, value } => write@ == (Write::Put { key: key@, value: value@ }),
            StoreWrite::PutExpiring { key, value, seconds } => write@ == (Write::PutExpiring {
                key: key@,
                value: value@,
                seconds: seconds as nat,
            }),
            StoreWrite::PutIfAbsent { key, value, seconds } => write@ == (Write::PutIfAbsent {
                key: key@,
                value: value@,
                seconds: seconds as nat,
            }),
            StoreWrite::AddMember { key, member } => write@ == (Write::AddMember {
                key: key@,
                member: member@,
            }),
            StoreWrite::RemoveMember { key, member } => write@ == (Write::RemoveMember {
                key: key@,
                member: member@,
            }),
            StoreWrite::Delete { key } => write@ == (Write::Delete { key: key@ }),
        },
{
}

/// A write that was made leaves the ones after it, each where it was; one that
/// failed leaves none.
pub proof fn law_one_write_is_done_at_a_time(write: Write, rest: Seq<Write>)
    ensures
        store::rest_of(seq![write] + rest, true) == rest,
        store::rest_of(seq![write] + rest, false).len() == 0,
{
    assert(store::rest_of(seq![write] + rest, true) =~= rest);
}

} // verus!
