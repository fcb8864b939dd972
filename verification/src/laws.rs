//! The laws the store's operations obey, stated over its mathematical model.
//!
//! Each operation's own contract describes its step; these lemmas spell out
//! what the steps guarantee in combination: created records are read back
//! unchanged, an update touches exactly the addressed record and keeps its
//! owner, a deletion removes exactly the addressed id, and ids grow strictly
//! and are never reused.

use vstd::prelude::*;
use crate::password::PasswordView;

verus! {

/// Round trip: creating a record stores it under the returned fresh id, so a
/// get of that id returns a record equal to the one created.
pub proof fn lemma_create_then_get(m: Map<u64, PasswordView>, i: u64, p: PasswordView)
    ensures
        m.insert(i, p).contains_key(i),
        m.insert(i, p)[i] == p,
{
}

/// An owner's update rewrites the addressed record's text and timestamp,
/// keeps its owner, and leaves every other id and record untouched.
pub proof fn lemma_update_effect(m: Map<u64, PasswordView>, i: u64, v: Seq<char>, now: u64)
    requires
        m.contains_key(i),
    ensures
        ({
            let m2 = m.insert(i, (PasswordView { value: v, created_at: now, owner: m[i].owner }));
            &&& m2.contains_key(i)
            &&& m2[i].value == v
            &&& m2[i].created_at == now
            &&& m2[i].owner == m[i].owner
            &&& forall|k: u64|
                k != i ==> #[trigger] m2.contains_key(k) == m.contains_key(k)
            &&& forall|k: u64| k != i && #[trigger] m.contains_key(k) ==> m2[k] == m[k]
        }),
{
}

/// An owner's deletion removes the addressed id, so a later get of it fails,
/// and leaves every other id and record untouched.
pub proof fn lemma_delete_effect(m: Map<u64, PasswordView>, i: u64)
    ensures
        !m.remove(i).contains_key(i),
        forall|k: u64| k != i ==> #[trigger] m.remove(i).contains_key(k) == m.contains_key(k),
        forall|k: u64| k != i && #[trigger] m.contains_key(k) ==> m.remove(i)[k] == m[k],
{
}

/// Ids strictly increase and are never reused. A creation returns the
/// counter plus one and leaves the counter at that value; no operation ever
/// lowers the counter, deletion included. So if one creation returns `i1`
/// with the counter at `c1`, every later creation runs with a counter of at
/// least `i1` and returns a strictly greater id.
pub proof fn lemma_ids_never_reused(c1: u64, i1: u64, c2: u64, i2: u64)
    requires
        i1 == c1 + 1,
        c2 >= i1,
        i2 == c2 + 1,
    ensures
        i2 > i1,
{
}

} // verus!
