//! An in-memory short-link store: the persistence abstraction of the
//! service, proved against the map model in `model`. It enforces key
//! uniqueness on create, treats an absent key as a normal outcome of lookup
//! and delete, and makes incrementing an absent key a silent no-op.

use vstd::prelude::*;

use crate::model::{
    model_create, model_delete, model_find, model_increment, LinkData, StoreModel,
};

verus! {

/// The sole persisted entity: one mapping from a short key to a target URL,
/// with its hit counter.
pub struct ShortLink {
    pub key: String,
    pub target_url: String,
    pub hits: u64,
}

impl ShortLink {
    /// The data this record contributes to the store model.
    pub open spec fn data(self) -> LinkData {
        LinkData { target: self.target_url@, hits: self.hits as nat }
    }
}

/// Why a store operation failed.
#[derive(Clone, Copy, PartialEq, Eq, Structural, Debug)]
pub enum StoreError {
    /// The key to be created is already bound: the uniqueness constraint.
    DuplicateKey,
    /// The backend failed: unavailable, timed out, or some other
    /// constraint was violated.
    Backend,
}

/// No two records share a key.
pub open spec fn keys_unique(s: Seq<ShortLink>) -> bool {
    forall|i: int, j: int|
        0 <= i < j < s.len() ==> (#[trigger] s[i]).key@ != (#[trigger] s[j]).key@
}

/// The map a sequence of records stands for. When keys repeat, the later
/// record wins; the store's invariant rules repetition out.
pub open spec fn map_of(s: Seq<ShortLink>) -> StoreModel
    decreases s.len(),
{
    if s.len() == 0 {
        Map::empty()
    } else {
        map_of(s.drop_last()).insert(s.last().key@, s.last().data())
    }
}

/// The store: a list of records with pairwise distinct keys.
pub struct MemStore {
    links: Vec<ShortLink>,
}

impl View for MemStore {
    type V = StoreModel;

    closed spec fn view(&self) -> StoreModel {
        map_of(self.links@)
    }
}

proof fn lemma_map_of_contains(s: Seq<ShortLink>, key: Seq<char>)
    ensures
        map_of(s).contains_key(key) <==> exists|i: int|
            0 <= i < s.len() && (#[trigger] s[i]).key@ == key,
    decreases s.len(),
{
    if s.len() > 0 {
        lemma_map_of_contains(s.drop_last(), key);
        if map_of(s).contains_key(key) {
            if s.last().key@ == key {
                assert(s[s.len() - 1].key@ == key);
            } else {
                let i = choose|i: int|
                    0 <= i < s.drop_last().len() && (#[trigger] s.drop_last()[i]).key@ == key;
                assert(s[i].key@ == key);
            }
        }
        if exists|i: int| 0 <= i < s.len() && (#[trigger] s[i]).key@ == key {
            let i = choose|i: int| 0 <= i < s.len() && (#[trigger] s[i]).key@ == key;
            if i < s.len() - 1 {
                assert(s.drop_last()[i].key@ == key);
            }
        }
    }
}

proof fn lemma_map_of_index(s: Seq<ShortLink>, i: int)
    requires
        keys_unique(s),
        0 <= i < s.len(),
    ensures
        map_of(s).contains_key(s[i].key@),
        map_of(s)[s[i].key@] == s[i].data(),
    decreases s.len(),
{
    if i < s.len() - 1 {
        assert(keys_unique(s.drop_last()));
        lemma_map_of_index(s.drop_last(), i);
        assert(s[i].key@ != s.last().key@);
    }
}

proof fn lemma_map_of_update(s: Seq<ShortLink>, i: int, l: ShortLink)
    requires
        keys_unique(s),
        0 <= i < s.len(),
        l.key@ == s[i].key@,
    ensures
        map_of(s.update(i, l)) =~= map_of(s).insert(l.key@, l.data()),
        keys_unique(s.update(i, l)),
    decreases s.len(),
{
    let t = s.update(i, l);
    assert(keys_unique(t));
    if i == s.len() - 1 {
        assert(t.drop_last() =~= s.drop_last());
        assert(t.last() == l);
    } else {
        assert(keys_unique(s.drop_last()));
        lemma_map_of_update(s.drop_last(), i, l);
        assert(t.drop_last() =~= s.drop_last().update(i, l));
        assert(t.last() == s.last());
        assert(l.key@ != s.last().key@);
    }
}

proof fn lemma_map_of_remove(s: Seq<ShortLink>, i: int)
    requires
        keys_unique(s),
        0 <= i < s.len(),
    ensures
        map_of(s.remove(i)) =~= map_of(s).remove(s[i].key@),
        keys_unique(s.remove(i)),
    decreases s.len(),
{
    let t = s.remove(i);
    assert(keys_unique(t));
    assert(keys_unique(s.drop_last()));
    lemma_map_of_contains(s.drop_last(), s[i].key@);
    if i == s.len() - 1 {
        assert(t =~= s.drop_last());
        assert(!map_of(s.drop_last()).contains_key(s[i].key@));
    } else {
        lemma_map_of_remove(s.drop_last(), i);
        assert(t.drop_last() =~= s.drop_last().remove(i));
        assert(t.last() == s.last());
        assert(s[i].key@ != s.last().key@);
    }
}

impl MemStore {
    /// The store's invariant: record keys are pairwise distinct.
    pub closed spec fn wf(self) -> bool {
        keys_unique(self.links@)
    }

    /// An empty store.
    pub fn new() -> (r: MemStore)
        ensures
            r.wf(),
            r@ == Map::<Seq<char>, LinkData>::empty(),
    {
        let r = MemStore { links: Vec::new() };
        proof {
            assert(r@ =~= Map::<Seq<char>, LinkData>::empty());
        }
        r
    }

    /// The index of the record bound to `key`, if one exists.
    fn find_index(&self, key: &String) -> (r: Option<usize>)
        ensures
            r matches Some(i) ==> i < self.links@.len() && self.links@[i as int].key@ == key@,
            r is None ==> forall|i: int|
                0 <= i < self.links@.len() ==> (#[trigger] self.links@[i]).key@ != key@,
    {
        let mut i: usize = 0;
        while i < self.links.len()
            invariant
                i <= self.links@.len(),
                forall|j: int| 0 <= j < i ==> (#[trigger] self.links@[j]).key@ != key@,
            decreases self.links@.len() - i,
        {
            if self.links[i].key == *key {
                return Some(i);
            }
            i = i + 1;
        }
        None
    }

    /// Inserts a new record. Fails with `DuplicateKey`, leaving the store
    /// unchanged, exactly when `key` is already bound; otherwise binds
    /// `key` to `target_url` with a hit count of zero.
    pub fn create(&mut self, key: String, target_url: String) -> (r: Result<(), StoreError>)
        requires
            old(self).wf(),
        ensures
            final(self).wf(),
            r is Ok <==> !old(self)@.contains_key(key@),
            r is Ok ==> final(self)@ == model_create(old(self)@, key@, target_url@),
            r is Err ==> final(self)@ == old(self)@ && r == Err::<(), StoreError>(
                StoreError::DuplicateKey,
            ),
    {
        proof {
            lemma_map_of_contains(self.links@, key@);
        }
        match self.find_index(&key) {
            Some(_) => Err(StoreError::DuplicateKey),
            None => {
                let ghost old_links = self.links@;
                let link = ShortLink { key, target_url, hits: 0 };
                self.links.push(link);
                proof {
                    assert(self.links@.drop_last() =~= old_links);
                    assert(forall|i: int, j: int|
                        0 <= i < j < self.links@.len() ==> (#[trigger] self.links@[i]).key@
                            != (#[trigger] self.links@[j]).key@);
                }
                Ok(())
            },
        }
    }

    /// Returns the record bound to `key`, or nothing when the key is
    /// absent; absence is not an error.
    pub fn find_by_key(&self, key: &String) -> (r: Option<ShortLink>)
        requires
            self.wf(),
        ensures
            r is Some <==> self@.contains_key(key@),
            r matches Some(l) ==> l.key@ == key@ && model_find(self@, key@) == Some(l.data()),
    {
        proof {
            lemma_map_of_contains(self.links@, key@);
        }
        match self.find_index(key) {
            Some(i) => {
                proof {
                    lemma_map_of_index(self.links@, i as int);
                }
                let l = &self.links[i];
                Some(ShortLink {
                    key: l.key.clone(),
                    target_url: l.target_url.clone(),
                    hits: l.hits,
                })
            },
            None => None,
        }
    }

    /// Adds one hit to the record bound to `key`. A silent no-op when the
    /// key is absent: the link may have been deleted between the resolve
    /// that earned the hit and this increment, which must be tolerated.
    pub fn increment_hits(&mut self, key: &String)
        requires
            old(self).wf(),
        ensures
            final(self).wf(),
            final(self)@ == model_increment(old(self)@, key@),
    {
        proof {
            lemma_map_of_contains(self.links@, key@);
        }
        match self.find_index(key) {
            Some(i) => {
                let ghost old_links = self.links@;
                proof {
                    lemma_map_of_index(self.links@, i as int);
                }
                let old_hits = self.links[i].hits;
                let new_hits: u64 = if old_hits < u64::MAX {
                    old_hits + 1
                } else {
                    old_hits
                };
                self.links[i].hits = new_hits;
                proof {
                    lemma_map_of_update(old_links, i as int, self.links@[i as int]);
                    assert(self@ =~= model_increment(old(self)@, key@));
                }
            },
            None => {},
        }
    }

    /// Removes the record bound to `key` and returns how many records went
    /// away: 1 when the key was bound, 0 when it was not, so the caller can
    /// tell "deleted" from "nothing to delete". Absence is not an error.
    pub fn delete_by_key(&mut self, key: &String) -> (r: u64)
        requires
            old(self).wf(),
        ensures
            final(self).wf(),
            final(self)@ == model_delete(old(self)@, key@),
            r == 1u64 <==> old(self)@.contains_key(key@),
            r == 0u64 || r == 1u64,
    {
        proof {
            lemma_map_of_contains(self.links@, key@);
        }
        match self.find_index(key) {
            Some(i) => {
                let ghost old_links = self.links@;
                proof {
                    lemma_map_of_remove(old_links, i as int);
                }
                self.links.remove(i);
                1
            },
            None => {
                proof {
                    assert(self@ =~= model_delete(old(self)@, key@));
                }
                0
            },
        }
    }
}

} // verus!
