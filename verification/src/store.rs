//! The keyed record store.
//!
//! A `PasswordStore` maps auto-incrementing `u64` ids to password records and
//! carries a monotonic counter. The counter starts at 0 and is incremented
//! before each assignment, so ids start at 1, grow strictly, and are never
//! reused, even after deletions. Mutating operations are permitted only to
//! the identity recorded on the record at creation; reads are unrestricted.
//!
//! Mathematically the store is the sequence of its records in insertion
//! order, [`PasswordStore::records`], and the finite map it induces,
//! [`PasswordStore::contents`].

use vstd::prelude::*;
use crate::errors::Error;
use crate::generate::alphabet;
use crate::generate::generate_value;
use crate::generate::generated_value;
use crate::password::Password;
use crate::password::PasswordPayload;
use crate::password::PasswordView;
use crate::principal::Principal;

verus! {

/// The finite map a sequence of id-record pairs induces: later pairs win,
/// though the store only ever holds distinct ids.
pub open spec fn map_of(s: Seq<(u64, PasswordView)>) -> Map<u64, PasswordView>
    decreases s.len(),
{
    if s.len() == 0 {
        Map::empty()
    } else {
        map_of(s.drop_last()).insert(s.last().0, s.last().1)
    }
}

/// No id occurs twice in the sequence.
pub open spec fn distinct_ids(s: Seq<(u64, PasswordView)>) -> bool {
    forall|j: int, k: int|
        0 <= j < k < s.len() ==> (#[trigger] s[j]).0 != (#[trigger] s[k]).0
}

/// On a sequence of distinct ids, membership and lookup in the induced map
/// agree with the sequence: a key is present exactly when some pair carries
/// it, and lookup returns that pair's record.
pub proof fn lemma_map_of_props(s: Seq<(u64, PasswordView)>)
    requires
        distinct_ids(s),
    ensures
        forall|id: u64|
            #[trigger] map_of(s).contains_key(id) ==> exists|j: int|
                0 <= j < s.len() && (#[trigger] s[j]).0 == id,
        forall|j: int|
            0 <= j < s.len() ==> map_of(s).contains_key((#[trigger] s[j]).0) && map_of(s)[s[j].0]
                == s[j].1,
    decreases s.len(),
{
    if s.len() > 0 {
        let s0 = s.drop_last();
        assert(distinct_ids(s0));
        lemma_map_of_props(s0);
        let last = s.last();
        assert forall|id: u64| #[trigger] map_of(s).contains_key(id) implies exists|j: int|
            0 <= j < s.len() && (#[trigger] s[j]).0 == id by {
            if id == last.0 {
                assert((s[s.len() - 1]).0 == id);
            } else {
                assert(map_of(s0).contains_key(id));
                let j = choose|j: int| 0 <= j < s0.len() && (#[trigger] s0[j]).0 == id;
                assert((s[j]).0 == id);
            }
        }
        assert forall|j: int| 0 <= j < s.len() implies map_of(s).contains_key(
            (#[trigger] s[j]).0,
        ) && map_of(s)[s[j].0] == s[j].1 by {
            if j == s.len() - 1 {
                assert(map_of(s)[last.0] == last.1);
            } else {
                assert(s0[j] == s[j]);
                assert(map_of(s0).contains_key(s[j].0) && map_of(s0)[s[j].0] == s[j].1);
                assert(s[j].0 != last.0);
            }
        }
    }
}

/// Appending a pair inserts it into the induced map.
pub proof fn lemma_map_of_push(s: Seq<(u64, PasswordView)>, e: (u64, PasswordView))
    ensures
        map_of(s.push(e)) == map_of(s).insert(e.0, e.1),
{
    assert(s.push(e).drop_last() =~= s);
    assert(s.push(e).last() == e);
}

/// Replacing the record of the pair at `j` updates the induced map at that
/// pair's id and nothing else.
pub proof fn lemma_map_of_update(s: Seq<(u64, PasswordView)>, j: int, v: PasswordView)
    requires
        distinct_ids(s),
        0 <= j < s.len(),
    ensures
        map_of(s.update(j, (s[j].0, v))) == map_of(s).insert(s[j].0, v),
    decreases s.len(),
{
    let t = s.update(j, (s[j].0, v));
    let id = s[j].0;
    if j == s.len() - 1 {
        assert(t.drop_last() =~= s.drop_last());
        assert(t.last() == (id, v));
        assert(map_of(s.drop_last()).insert(id, v) =~= map_of(s.drop_last()).insert(
            id,
            s[j].1,
        ).insert(id, v));
    } else {
        let s0 = s.drop_last();
        assert(distinct_ids(s0));
        assert(t.drop_last() =~= s0.update(j, (id, v)));
        assert(s0[j] == s[j]);
        lemma_map_of_update(s0, j, v);
        assert(t.last() == s.last());
        assert(id != s.last().0);
        assert(map_of(s0).insert(id, v).insert(s.last().0, s.last().1) =~= map_of(s0).insert(
            s.last().0,
            s.last().1,
        ).insert(id, v));
    }
}

/// Removing the pair at `j` removes that pair's id from the induced map and
/// nothing else.
pub proof fn lemma_map_of_remove(s: Seq<(u64, PasswordView)>, j: int)
    requires
        distinct_ids(s),
        0 <= j < s.len(),
    ensures
        map_of(s.remove(j)) == map_of(s).remove(s[j].0),
    decreases s.len(),
{
    let t = s.remove(j);
    let id = s[j].0;
    if j == s.len() - 1 {
        let s0 = s.drop_last();
        assert(t =~= s0);
        assert(distinct_ids(s0));
        lemma_map_of_props(s0);
        assert(forall|i: int| 0 <= i < s0.len() ==> (#[trigger] s0[i]).0 != id);
        assert(!map_of(s0).contains_key(id));
        assert(map_of(s).remove(id) =~= map_of(s0));
    } else {
        let s0 = s.drop_last();
        assert(distinct_ids(s0));
        assert(s0[j] == s[j]);
        assert(t.drop_last() =~= s0.remove(j));
        assert(t.last() == s.last());
        lemma_map_of_remove(s0, j);
        assert(id != s.last().0);
        assert(map_of(s0).remove(id).insert(s.last().0, s.last().1) =~= map_of(s0).insert(
            s.last().0,
            s.last().1,
        ).remove(id));
    }
}

/// The in-memory keyed record store: records in insertion order beside the
/// monotonic id counter.
pub struct PasswordStore {
    entries: Vec<(u64, Password)>,
    counter: u64,
}

impl PasswordStore {
    /// The records as the store holds them: id-record pairs in insertion
    /// order.
    pub closed spec fn records(&self) -> Seq<(u64, PasswordView)> {
        self.entries@.map_values(|e: (u64, Password)| (e.0, e.1@))
    }

    /// The value of the id counter: the number of ids issued so far.
    pub closed spec fn counter(&self) -> u64 {
        self.counter
    }

    /// The mapping from id to record that the store represents.
    pub open spec fn contents(&self) -> Map<u64, PasswordView> {
        map_of(self.records())
    }

    /// The store's invariant: ids strictly increase along insertion order,
    /// and every id was issued by the counter, so lies between 1 and it.
    pub open spec fn wf(&self) -> bool {
        &&& forall|j: int, k: int|
            0 <= j < k < self.records().len() ==> (#[trigger] self.records()[j]).0 < (
            #[trigger] self.records()[k]).0
        &&& forall|j: int|
            0 <= j < self.records().len() ==> 1 <= (#[trigger] self.records()[j]).0
                <= self.counter()
    }

    /// An empty store with the counter at 0.
    pub fn new() -> (r: PasswordStore)
        ensures
            r.wf(),
            r.counter() == 0,
            r.records() == Seq::<(u64, PasswordView)>::empty(),
            r.contents() == Map::<u64, PasswordView>::empty(),
    {
        let r = PasswordStore { entries: Vec::new(), counter: 0 };
        proof {
            assert(r.records() =~= Seq::<(u64, PasswordView)>::empty());
        }
        r
    }

    /// The current value of the id counter.
    pub fn counter_value(&self) -> (c: u64)
        ensures
            c == self.counter(),
    {
        self.counter
    }

    /// The position of the record with the given id, if any.
    fn find_index(&self, id: u64) -> (r: Option<usize>)
        ensures
            match r {
                Some(j) => j < self.records().len() && self.records()[j as int].0 == id,
                None => forall|j: int|
                    0 <= j < self.records().len() ==> (#[trigger] self.records()[j]).0 != id,
            },
    {
        let n = self.entries.len();
        let mut i: usize = 0;
        while i < n
            invariant
                n == self.entries.len(),
                i <= n,
                forall|j: int| 0 <= j < i ==> (#[trigger] self.entries@[j]).0 != id,
            decreases n - i,
        {
            if self.entries[i].0 == id {
                return Some(i);
            }
            i = i + 1;
        }
        None
    }

    /// Assigns the next counter value, inserts the record under it, and
    /// returns the new id, which is fresh: strictly greater than every id
    /// ever issued before, whether or not it is still present.
    pub fn store_password(&mut self, password: Password) -> (id: u64)
        requires
            old(self).wf(),
            old(self).counter() < u64::MAX,
        ensures
            final(self).wf(),
            id == old(self).counter() + 1,
            final(self).counter() == id,
            !old(self).contents().contains_key(id),
            forall|k: u64| #[trigger] old(self).contents().contains_key(k) ==> k < id,
            final(self).records() == old(self).records().push((id, password@)),
            final(self).contents() == old(self).contents().insert(id, password@),
    {
        let id = self.counter + 1;
        self.counter = id;
        proof {
            lemma_map_of_props(old(self).records());
            assert forall|k: u64| #[trigger]
                old(self).contents().contains_key(k) implies k < id by {
                let j = choose|j: int|
                    0 <= j < old(self).records().len() && (#[trigger] old(self).records()[j]).0
                        == k;
            }
        }
        self.entries.push((id, password));
        proof {
            assert(self.records() =~= old(self).records().push((id, password@)));
            lemma_map_of_push(old(self).records(), (id, password@));
        }
        id
    }

    /// Builds a password of exactly `length` characters from the fixed
    /// alphabet by the seeded recurrence, owned by `owner` and created at
    /// `now`, stores a copy of it under the next id, and returns it.
    pub fn generate_password(&mut self, length: u64, now: u64, owner: Principal) -> (r: Password)
        requires
            old(self).wf(),
            old(self).counter() < u64::MAX,
        ensures
            final(self).wf(),
            r.value@ == generated_value(now, length as nat),
            r.value@.len() == length,
            forall|i: int| 0 <= i < length ==> alphabet().contains(#[trigger] r.value@[i]),
            r.created_at == now,
            r.owner@ == owner@,
            final(self).counter() == old(self).counter() + 1,
            final(self).contents() == old(self).contents().insert(
                (old(self).counter() + 1) as u64,
                r@,
            ),
    {
        let value = generate_value(now, length);
        let generated = Password { value, created_at: now, owner };
        let copy = generated.clone();
        let _id = self.store_password(copy);
        generated
    }

    /// Returns a copy of the record under `id`, or `NotFound` if the id is
    /// absent. Reading is unrestricted: no ownership check.
    pub fn get_password(&self, id: u64) -> (r: Result<Password, Error>)
        requires
            self.wf(),
        ensures
            match r {
                Ok(p) => self.contents().contains_key(id) && p@ == self.contents()[id],
                Err(e) => e == Error::NotFound && !self.contents().contains_key(id),
            },
    {
        proof {
            lemma_map_of_props(self.records());
        }
        match self.find_index(id) {
            Some(j) => {
                let p = self.entries[j].1.clone();
                Ok(p)
            },
            None => Err(Error::NotFound),
        }
    }

    /// Overwrites the text of the record under `id` with the payload's and
    /// refreshes its timestamp to `now`, provided the caller is its owner.
    /// Fails with `NotFound` if the id is absent and with `Unauthorized` if
    /// the caller is not the owner; on failure the store is unchanged.
    pub fn update_password(
        &mut self,
        id: u64,
        payload: PasswordPayload,
        now: u64,
        caller: &Principal,
    ) -> (r: Result<(), Error>)
        requires
            old(self).wf(),
        ensures
            final(self).wf(),
            final(self).counter() == old(self).counter(),
            match r {
                Ok(()) => {
                    &&& old(self).contents().contains_key(id)
                    &&& old(self).contents()[id].owner == caller@
                    &&& final(self).contents() == old(self).contents().insert(
                        id,
                        (PasswordView {
                            value: payload@,
                            created_at: now,
                            owner: old(self).contents()[id].owner,
                        }),
                    )
                },
                Err(Error::NotFound) => {
                    &&& !old(self).contents().contains_key(id)
                    &&& final(self).records() == old(self).records()
                },
                Err(Error::Unauthorized) => {
                    &&& old(self).contents().contains_key(id)
                    &&& old(self).contents()[id].owner != caller@
                    &&& final(self).records() == old(self).records()
                },
            },
    {
        proof {
            lemma_map_of_props(old(self).records());
        }
        match self.find_index(id) {
            Some(j) => {
                let owner_matches = self.entries[j].1.owner.matches(caller);
                if owner_matches {
                    let entry = self.entries.remove(j);
                    let updated = Password {
                        value: payload.value,
                        created_at: now,
                        owner: entry.1.owner,
                    };
                    self.entries.insert(j, (id, updated));
                    proof {
                        let ghost s = old(self).records();
                        let ghost v = PasswordView {
                            value: payload@,
                            created_at: now,
                            owner: old(self).contents()[id].owner,
                        };
                        assert(self.records() =~= s.update(j as int, (id, v)));
                        lemma_map_of_update(s, j as int, v);
                        assert forall|j2: int, k2: int|
                            0 <= j2 < k2 < self.records().len() implies (
                        #[trigger] self.records()[j2]).0 < (#[trigger] self.records()[k2]).0 by {
                            assert(self.records()[j2].0 == s[j2].0);
                            assert(self.records()[k2].0 == s[k2].0);
                        }
                    }
                    Ok(())
                } else {
                    Err(Error::Unauthorized)
                }
            },
            None => Err(Error::NotFound),
        }
    }

    /// Removes the record under `id`, provided the caller is its owner.
    /// Fails with `NotFound` if the id is absent and with `Unauthorized` if
    /// the caller is not the owner; on failure the store is unchanged. The
    /// counter is untouched, so the id is never reissued.
    pub fn delete_password(&mut self, id: u64, caller: &Principal) -> (r: Result<(), Error>)
        requires
            old(self).wf(),
        ensures
            final(self).wf(),
            final(self).counter() == old(self).counter(),
            match r {
                Ok(()) => {
                    &&& old(self).contents().contains_key(id)
                    &&& old(self).contents()[id].owner == caller@
                    &&& final(self).contents() == old(self).contents().remove(id)
                },
                Err(Error::NotFound) => {
                    &&& !old(self).contents().contains_key(id)
                    &&& final(self).records() == old(self).records()
                },
                Err(Error::Unauthorized) => {
                    &&& old(self).contents().contains_key(id)
                    &&& old(self).contents()[id].owner != caller@
                    &&& final(self).records() == old(self).records()
                },
            },
    {
        proof {
            lemma_map_of_props(old(self).records());
        }
        match self.find_index(id) {
            Some(j) => {
                let owner_matches = self.entries[j].1.owner.matches(caller);
                if owner_matches {
                    let _removed = self.entries.remove(j);
                    proof {
                        let ghost s = old(self).records();
                        assert(self.records() =~= s.remove(j as int));
                        lemma_map_of_remove(s, j as int);
                        assert forall|j2: int, k2: int|
                            0 <= j2 < k2 < self.records().len() implies (
                        #[trigger] self.records()[j2]).0 < (#[trigger] self.records()[k2]).0 by {
                            let oj = if j2 < j { j2 } else { j2 + 1 };
                            let ok = if k2 < j { k2 } else { k2 + 1 };
                            assert(self.records()[j2].0 == s[oj].0);
                            assert(self.records()[k2].0 == s[ok].0);
                        }
                    }
                    Ok(())
                } else {
                    Err(Error::Unauthorized)
                }
            },
            None => Err(Error::NotFound),
        }
    }

    /// Returns a snapshot copy of all records, in insertion order.
    pub fn list_passwords(&self) -> (r: Vec<Password>)
        ensures
            r@.len() == self.records().len(),
            forall|j: int| 0 <= j < r@.len() ==> (#[trigger] r@[j])@ == self.records()[j].1,
    {
        let n = self.entries.len();
        let mut out: Vec<Password> = Vec::new();
        let mut i: usize = 0;
        while i < n
            invariant
                n == self.entries.len(),
                i <= n,
                out@.len() == i,
                forall|j: int| 0 <= j < i ==> (#[trigger] out@[j])@ == self.records()[j].1,
            decreases n - i,
        {
            out.push(self.entries[i].1.clone());
            i = i + 1;
        }
        out
    }

    /// Whether no stored record's text equals the payload's: true on an
    /// empty store, false exactly when some record matches.
    pub fn check_password_uniqueness(&self, payload: &PasswordPayload) -> (unique: bool)
        requires
            self.wf(),
        ensures
            unique == (forall|k: u64|
                #[trigger] self.contents().contains_key(k) ==> self.contents()[k].value
                    != payload@),
    {
        proof {
            lemma_map_of_props(self.records());
        }
        let n = self.entries.len();
        let mut i: usize = 0;
        while i < n
            invariant
                self.wf(),
                n == self.entries.len(),
                i <= n,
                forall|j: int| 0 <= j < i ==> (#[trigger] self.records()[j]).1.value != payload@,
            decreases n - i,
        {
            if self.entries[i].1.value == payload.value {
                proof {
                    lemma_map_of_props(self.records());
                    assert(self.contents().contains_key(self.records()[i as int].0));
                    assert(self.contents()[self.records()[i as int].0].value == payload@);
                }
                return false;
            }
            i = i + 1;
        }
        proof {
            lemma_map_of_props(self.records());
            assert forall|k: u64| #[trigger]
                self.contents().contains_key(k) implies self.contents()[k].value != payload@ by {
                let j = choose|j: int|
                    0 <= j < self.records().len() && (#[trigger] self.records()[j]).0 == k;
                assert(self.contents()[k] == self.records()[j].1);
            }
        }
        true
    }
}

} // verus!
