//! Mathematical model of the short-link store: a finite map from short keys
//! to link data, together with the transitions that the store operations
//! perform and the laws that relate them.

use vstd::prelude::*;

verus! {

/// What the store remembers about one short link: the destination URL and
/// how many times the link has been resolved.
pub struct LinkData {
    pub target: Seq<char>,
    pub hits: nat,
}

/// The abstract state of the persistence backend: a map from short keys to
/// link data. Keys are unique by construction of the map.
pub type StoreModel = Map<Seq<char>, LinkData>;

/// Creating a link binds the key to the target with a hit count of zero.
pub open spec fn model_create(m: StoreModel, key: Seq<char>, target: Seq<char>) -> StoreModel {
    m.insert(key, LinkData { target: target, hits: 0 })
}

/// Looking a key up returns its data, or nothing when the key is absent.
pub open spec fn model_find(m: StoreModel, key: Seq<char>) -> Option<LinkData> {
    if m.contains_key(key) {
        Some(m[key])
    } else {
        None
    }
}

/// One hit on a link: the counter grows by one. The counter lives in a
/// 64-bit word in the store, so it saturates there instead of wrapping.
pub open spec fn bumped(d: LinkData) -> LinkData {
    if d.hits < u64::MAX {
        LinkData { target: d.target, hits: d.hits + 1 }
    } else {
        d
    }
}

/// Incrementing the hit counter of a key: a silent no-op when the key is
/// absent (the link may have been deleted since it was resolved).
pub open spec fn model_increment(m: StoreModel, key: Seq<char>) -> StoreModel {
    if m.contains_key(key) {
        m.insert(key, bumped(m[key]))
    } else {
        m
    }
}

/// Deleting a key removes its binding; deleting an absent key changes nothing.
pub open spec fn model_delete(m: StoreModel, key: Seq<char>) -> StoreModel {
    m.remove(key)
}

/// `n` increments of the same key, applied one after the other.
pub open spec fn model_increment_n(m: StoreModel, key: Seq<char>, n: nat) -> StoreModel
    decreases n,
{
    if n == 0 {
        m
    } else {
        model_increment(model_increment_n(m, key, (n - 1) as nat), key)
    }
}

/// Round trip: a key just created resolves to exactly the target it was
/// created with, and its hit count starts at zero.
pub proof fn lemma_create_resolve_round_trip(m: StoreModel, key: Seq<char>, target: Seq<char>)
    ensures
        model_find(model_create(m, key, target), key) == Some(
            LinkData { target: target, hits: 0 as nat },
        ),
{
}

/// Idempotence of absence: on a key that is not bound, lookup finds nothing,
/// and delete and increment leave the store exactly as it was, however often
/// they are repeated.
pub proof fn lemma_absent_is_stable(m: StoreModel, key: Seq<char>)
    requires
        !m.contains_key(key),
    ensures
        model_find(m, key) is None,
        model_delete(m, key) == m,
        model_increment(m, key) == m,
        model_find(model_delete(m, key), key) is None,
{
    assert(model_delete(m, key) =~= m);
}

/// Deleting a key makes a later lookup find nothing, and a later increment
/// of that key is a silent no-op, not an error.
pub proof fn lemma_delete_then_gone(m: StoreModel, key: Seq<char>)
    ensures
        model_find(model_delete(m, key), key) is None,
        model_increment(model_delete(m, key), key) == model_delete(m, key),
{
}

/// One increment of a present key raises its hit count by exactly one,
/// keeps its target, and touches no other binding.
pub proof fn lemma_increment_adds_one(m: StoreModel, key: Seq<char>)
    requires
        m.contains_key(key),
        m[key].hits < u64::MAX,
    ensures
        model_increment(m, key).dom() == m.dom(),
        model_increment(m, key)[key].hits == m[key].hits + 1,
        model_increment(m, key)[key].target == m[key].target,
        forall|k: Seq<char>|
            k != key && m.contains_key(k) ==> model_increment(m, key)[k] == m[k],
{
    assert(model_increment(m, key).dom() =~= m.dom());
}

/// A hit counter never goes down: every binding that survives an increment
/// has at least the hit count it had before.
pub proof fn lemma_increment_monotone(m: StoreModel, key: Seq<char>)
    ensures
        forall|k: Seq<char>|
            m.contains_key(k) ==> model_increment(m, key).contains_key(k)
                && model_increment(m, key)[k].hits >= m[k].hits,
{
}

/// `n` increments of a present key raise its hit count by exactly `n`
/// (one per resolve, so `n` resolves account for exactly `n` hits), as long
/// as the 64-bit counter does not saturate.
pub proof fn lemma_n_increments_add_n(m: StoreModel, key: Seq<char>, n: nat)
    requires
        m.contains_key(key),
        m[key].hits + n <= u64::MAX,
    ensures
        model_increment_n(m, key, n).contains_key(key),
        model_increment_n(m, key, n)[key].hits == m[key].hits + n,
        model_increment_n(m, key, n)[key].target == m[key].target,
    decreases n,
{
    if n > 0 {
        lemma_n_increments_add_n(m, key, (n - 1) as nat);
    }
}

} // verus!
