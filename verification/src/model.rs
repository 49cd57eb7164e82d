//! A model of the store: what its writes and the time do, and what its reads
//! give.
//!
//! Nothing here runs. The laws of the service are stated over this model.

use vstd::prelude::*;

use crate::store::Write;

verus! {

/// Something that happens to the store.
pub enum Change {
    /// It is asked for a write.
    Asked(Write),
    /// Seconds pass.
    Passed(nat),
}

/// The contents of the store. A key holds a text or a set, and either may be
/// due to expire.
#[verifier::ext_equal]
pub struct Store {
    pub texts: Map<Seq<char>, Seq<char>>,
    pub sets: Map<Seq<char>, Set<Seq<char>>>,
    pub expiries: Map<Seq<char>, nat>,
}

impl Store {
    /// No key holds both a text and a set; no set is empty, since the store
    /// drops a set with its last member; and only what is there can expire.
    pub open spec fn well_formed(self) -> bool {
        &&& forall|k: Seq<char>| !(#[trigger] self.texts.contains_key(k) && self.sets.contains_key(k))
        &&& forall|k: Seq<char>| #[trigger]
            self.sets.contains_key(k) ==> self.sets[k] != Set::<Seq<char>>::empty()
        &&& forall|k: Seq<char>| #[trigger] self.expiries.contains_key(k) ==> self.holds(k)
    }

    /// Tells whether `key` is there.
    pub open spec fn holds(self, key: Seq<char>) -> bool {
        self.texts.contains_key(key) || self.sets.contains_key(key)
    }

    /// The text under `key`.
    pub open spec fn text(self, key: Seq<char>) -> Option<Seq<char>> {
        if self.texts.contains_key(key) {
            Some(self.texts[key])
        } else {
            None
        }
    }

    /// The texts under `keys`, in the same order.
    pub open spec fn texts_at(self, keys: Seq<Seq<char>>) -> Seq<Option<Seq<char>>> {
        keys.map_values(|k: Seq<char>| self.text(k))
    }

    /// The members of the set under `key`.
    pub open spec fn members(self, key: Seq<char>) -> Set<Seq<char>> {
        if self.sets.contains_key(key) {
            self.sets[key]
        } else {
            Set::empty()
        }
    }

    /// In how many seconds `key` expires.
    pub open spec fn expiry(self, key: Seq<char>) -> Option<nat> {
        if self.expiries.contains_key(key) {
            Some(self.expiries[key])
        } else {
            None
        }
    }

    /// The store without `key`; also what is left once `key` has expired.
    pub open spec fn without(self, key: Seq<char>) -> Store {
        Store {
            texts: self.texts.remove(key),
            sets: self.sets.remove(key),
            expiries: self.expiries.remove(key),
        }
    }

    /// The store with the text `value` under `key`, whatever was there.
    pub open spec fn with_text(self, key: Seq<char>, value: Seq<char>) -> Store {
        Store { texts: self.texts.insert(key, value), ..self.without(key) }
    }

    /// The store with `key` due to expire.
    pub open spec fn expiring(self, key: Seq<char>, seconds: nat) -> Store {
        Store { expiries: self.expiries.insert(key, seconds), ..self }
    }

    /// The store with the set `members` under `key`.
    pub open spec fn with_set(self, key: Seq<char>, members: Set<Seq<char>>) -> Store {
        if members == Set::<Seq<char>>::empty() {
            self.without(key)
        } else {
            Store { sets: self.sets.insert(key, members), ..self }
        }
    }

    /// Tells whether `write` changes what its key holds; one that yields to what
    /// is there does not where the key is there.
    pub open spec fn takes(self, write: Write) -> bool {
        match write {
            Write::PutIfAbsent { key, .. } => !self.holds(key),
            _ => true,
        }
    }

    /// The store after `write`; none where the store refuses it, because the
    /// key of a set holds a text.
    pub open spec fn after(self, write: Write) -> Option<Store> {
        match write {
            Write::Put { key, value } => Some(self.with_text(key, value)),
            Write::PutExpiring { key, value, seconds } => Some(
                self.with_text(key, value).expiring(key, seconds),
            ),
            Write::PutIfAbsent { key, value, seconds } => Some(
                if self.holds(key) {
                    self
                } else {
                    self.with_text(key, value).expiring(key, seconds)
                },
            ),
            Write::AddMember { key, member } => if self.texts.contains_key(key) {
                None
            } else {
                Some(self.with_set(key, self.members(key).insert(member)))
            },
            Write::RemoveMember { key, member } => if self.texts.contains_key(key) {
                None
            } else {
                Some(self.with_set(key, self.members(key).remove(member)))
            },
            Write::Delete { key } => Some(self.without(key)),
        }
    }

    /// Tells whether `key` is not due to expire within `seconds`.
    pub open spec fn lasts(self, key: Seq<char>, seconds: nat) -> bool {
        match self.expiry(key) {
            Some(left) => seconds <= left,
            None => true,
        }
    }

    /// The store when `seconds` have passed: what was due to expire before that
    /// is gone.
    pub open spec fn elapsed(self, seconds: nat) -> Store {
        Store {
            texts: Map::new(
                |k: Seq<char>| self.texts.contains_key(k) && self.lasts(k, seconds),
                |k: Seq<char>| self.texts[k],
            ),
            sets: Map::new(
                |k: Seq<char>| self.sets.contains_key(k) && self.lasts(k, seconds),
                |k: Seq<char>| self.sets[k],
            ),
            expiries: Map::new(
                |k: Seq<char>| self.expiries.contains_key(k) && self.lasts(k, seconds),
                |k: Seq<char>| (self.expiries[k] - seconds) as nat,
            ),
        }
    }

    /// The store after `change`; a write that it refuses leaves it as it is.
    pub open spec fn changed(self, change: Change) -> Store {
        match change {
            Change::Asked(write) => match self.after(write) {
                Some(next) => next,
                None => self,
            },
            Change::Passed(seconds) => self.elapsed(seconds),
        }
    }

    /// Tells whether `change` leaves `key` alone: it does not write the key, or
    /// comes to nothing, as a write does that yields to what is there.
    pub open spec fn leaves(self, change: Change, key: Seq<char>) -> bool {
        change matches Change::Asked(write) ==> write.key() != key || self.changed(change) == self
    }

    /// The store after `changes`, one after the other.
    pub open spec fn through(self, changes: Seq<Change>) -> Store
        decreases changes.len(),
    {
        if changes.len() == 0 {
            self
        } else {
            self.through(changes.drop_last()).changed(changes.last())
        }
    }

    /// The store after `writes`, one after the other; none where it refuses
    /// one of them.
    pub open spec fn after_all(self, writes: Seq<Write>) -> Option<Store>
        decreases writes.len(),
    {
        if writes.len() == 0 {
            Some(self)
        } else {
            match self.after(writes[0]) {
                Some(next) => next.after_all(writes.skip(1)),
                None => None,
            }
        }
    }
}

/// How many seconds pass in `changes`.
pub open spec fn seconds_in(changes: Seq<Change>) -> nat
    decreases changes.len(),
{
    if changes.len() == 0 {
        0
    } else {
        seconds_in(changes.drop_last()) + match changes.last() {
            Change::Asked(_) => 0,
            Change::Passed(seconds) => seconds,
        }
    }
}

/// Tells whether each of `changes`, when its turn comes, leaves `key` alone.
pub open spec fn untouched(store: Store, changes: Seq<Change>, key: Seq<char>) -> bool {
    forall|i: int|
        0 <= i < changes.len() ==> store.through(changes.take(i)).leaves(
            #[trigger] changes[i],
            key,
        )
}

/// Tells whether `list` names the members of `set`, each once, in any order.
pub open spec fn lists(list: Seq<Seq<char>>, set: Set<Seq<char>>) -> bool {
    &&& list.no_duplicates()
    &&& forall|m: Seq<char>| #[trigger] list.contains(m) <==> set.contains(m)
}

/// The writes of a run that are made when its writes have these outcomes.
pub open spec fn made(writes: Seq<Write>, outcomes: Seq<bool>) -> Seq<Write>
    decreases writes.len(),
{
    if writes.len() == 0 || outcomes.len() == 0 {
        Seq::empty()
    } else {
        let first = if outcomes[0] {
            seq![writes[0]]
        } else {
            Seq::empty()
        };
        first + made(crate::store::rest_of(writes, outcomes[0]), outcomes.skip(1))
    }
}

} // verus!
