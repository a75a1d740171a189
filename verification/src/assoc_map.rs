//! A map over keys that are compared, not hashed, and that keeps its keys in the order in
//! which they came.

use vstd::prelude::*;

verus! {

/// A key that can be compared with another; two keys are the same when their views are.
pub trait MapKey: View + Sized {
    fn same_key(&self, other: &Self) -> (same: bool)
        ensures
            same == (self@ == other@),
    ;
}

/// Whether `key` is the key of some pair of `pairs`.
pub open spec fn has_key<KV, V>(pairs: Seq<(KV, V)>, key: KV) -> bool {
    exists|i: int| 0 <= i < pairs.len() && (#[trigger] pairs[i]).0 == key
}

/// Where `key` stands in `pairs`, if it does.
pub open spec fn index_of_key<KV, V>(pairs: Seq<(KV, V)>, key: KV) -> int {
    choose|i: int| 0 <= i < pairs.len() && (#[trigger] pairs[i]).0 == key
}

/// No key occurs twice in `pairs`.
pub open spec fn distinct_keys<KV, V>(pairs: Seq<(KV, V)>) -> bool {
    forall|i: int, j: int|
        0 <= i < j < pairs.len() ==> (#[trigger] pairs[i]).0 != (#[trigger] pairs[j]).0
}

/// The map that `pairs` stand for.
pub open spec fn map_of<KV, V>(pairs: Seq<(KV, V)>) -> Map<KV, V> {
    Map::new(|key: KV| has_key(pairs, key), |key: KV| pairs[index_of_key(pairs, key)].1)
}

pub struct AssocMap<K: MapKey, V> {
    entries: Vec<(K, V)>,
}

impl<K: MapKey, V> View for AssocMap<K, V> {
    type V = Map<<K as View>::V, V>;

    open spec fn view(&self) -> Map<<K as View>::V, V> {
        map_of(self.pairs())
    }
}

proof fn lemma_index<KV, V>(pairs: Seq<(KV, V)>, i: int)
    requires
        distinct_keys(pairs),
        0 <= i < pairs.len(),
    ensures
        has_key(pairs, pairs[i].0),
        index_of_key(pairs, pairs[i].0) == i,
        map_of(pairs)[pairs[i].0] == pairs[i].1,
{
    let key = pairs[i].0;
    assert(has_key(pairs, key));
    let j = index_of_key(pairs, key);
    assert(0 <= j < pairs.len() && pairs[j].0 == key);
}

/// Giving the key at `i` another value gives it that value in the map, and no other key.
proof fn lemma_update<KV, V>(pairs: Seq<(KV, V)>, i: int, value: V)
    requires
        distinct_keys(pairs),
        0 <= i < pairs.len(),
    ensures
        distinct_keys(pairs.update(i, (pairs[i].0, value))),
        map_of(pairs.update(i, (pairs[i].0, value))) == map_of(pairs).insert(pairs[i].0, value),
{
    let key = pairs[i].0;
    let after = pairs.update(i, (key, value));
    assert(distinct_keys(after));
    assert forall|k: KV| has_key(after, k) == #[trigger] has_key(pairs, k) by {
        if has_key(pairs, k) {
            assert(after[index_of_key(pairs, k)].0 == k);
        }
        if has_key(after, k) {
            assert(pairs[index_of_key(after, k)].0 == k);
        }
    }
    lemma_index(pairs, i);
    assert forall|k: KV| has_key(pairs, k) implies #[trigger] map_of(after)[k] == map_of(
        pairs,
    ).insert(key, value)[k] by {
        let j = index_of_key(pairs, k);
        lemma_index(pairs, j);
        lemma_index(after, j);
    }
    assert(map_of(after) =~= map_of(pairs).insert(key, value));
}

/// A pair with a new key adds that key to the map.
proof fn lemma_push<KV, V>(pairs: Seq<(KV, V)>, key: KV, value: V)
    requires
        distinct_keys(pairs),
        !has_key(pairs, key),
    ensures
        distinct_keys(pairs.push((key, value))),
        map_of(pairs.push((key, value))) == map_of(pairs).insert(key, value),
{
    let after = pairs.push((key, value));
    assert forall|i: int, j: int| 0 <= i < j < after.len() implies (#[trigger] after[i]).0 != (
    #[trigger] after[j]).0 by {
        if j == pairs.len() {
            assert(pairs[i].0 != key);
        }
    }
    assert forall|k: KV| #[trigger] has_key(after, k) == (has_key(pairs, k) || k == key) by {
        if has_key(pairs, k) {
            assert(after[index_of_key(pairs, k)].0 == k);
        }
        if k == key {
            assert(after[pairs.len() as int].0 == k);
        }
        if has_key(after, k) && k != key {
            assert(pairs[index_of_key(after, k)].0 == k);
        }
    }
    assert forall|k: KV| has_key(after, k) implies #[trigger] map_of(after)[k] == map_of(
        pairs,
    ).insert(key, value)[k] by {
        let j = index_of_key(after, k);
        lemma_index(after, j);
        if j < pairs.len() {
            lemma_index(pairs, j);
        }
    }
    assert(map_of(after) =~= map_of(pairs).insert(key, value));
}

/// Without the pair at `i`, the map is without its key.
proof fn lemma_remove<KV, V>(pairs: Seq<(KV, V)>, i: int)
    requires
        distinct_keys(pairs),
        0 <= i < pairs.len(),
    ensures
        distinct_keys(pairs.remove(i)),
        map_of(pairs.remove(i)) == map_of(pairs).remove(pairs[i].0),
{
    let key = pairs[i].0;
    let after = pairs.remove(i);
    assert(distinct_keys(after));
    assert forall|k: KV| #[trigger] has_key(after, k) == (has_key(pairs, k) && k != key) by {
        if has_key(after, k) {
            let j = index_of_key(after, k);
            if j < i {
                assert(pairs[j].0 == k);
            } else {
                assert(pairs[j + 1].0 == k);
            }
        }
        if has_key(pairs, k) && k != key {
            let j = index_of_key(pairs, k);
            if j < i {
                assert(after[j].0 == k);
            } else {
                assert(after[j - 1].0 == k);
            }
        }
    }
    assert forall|k: KV| has_key(after, k) implies #[trigger] map_of(after)[k] == map_of(
        pairs,
    )[k] by {
        let j = index_of_key(after, k);
        lemma_index(after, j);
        lemma_index(pairs, if j < i { j } else { j + 1 });
    }
    assert(map_of(after) =~= map_of(pairs).remove(key));
}

impl<K: MapKey, V> AssocMap<K, V> {
    /// The pairs of the map, in the order in which their keys came.
    pub closed spec fn pairs(self) -> Seq<(<K as View>::V, V)> {
        self.entries@.map_values(|entry: (K, V)| (entry.0@, entry.1))
    }

    /// No key occurs twice.
    pub open spec fn wf(self) -> bool {
        distinct_keys(self.pairs())
    }

    pub fn new() -> (map: Self)
        ensures
            map.wf(),
            map.pairs() == Seq::<(<K as View>::V, V)>::empty(),
            map@ == Map::<<K as View>::V, V>::empty(),
    {
        let map = AssocMap { entries: Vec::new() };
        assert(map.pairs() =~= Seq::empty());
        assert(map@ =~= Map::empty());
        map
    }

    /// The map holds what its pairs hold: a key is there exactly when some pair has it, with the
    /// value of that pair, and no two pairs have the same key.
    pub proof fn holds_its_pairs(self, key: <K as View>::V)
        requires
            self.wf(),
        ensures
            self@.contains_key(key) <==> exists|i: int|
                0 <= i < self.pairs().len() && (#[trigger] self.pairs()[i]).0 == key,
            forall|i: int|
                0 <= i < self.pairs().len() && (#[trigger] self.pairs()[i]).0 == key ==> self@[key]
                    == self.pairs()[i].1,
            forall|i: int, j: int|
                0 <= i < j < self.pairs().len() ==> (#[trigger] self.pairs()[i]).0 != (
                #[trigger] self.pairs()[j]).0,
    {
        assert forall|i: int|
            0 <= i < self.pairs().len() && (#[trigger] self.pairs()[i]).0 == key implies self@[key]
            == self.pairs()[i].1 by {
            lemma_index(self.pairs(), i);
        }
    }

    pub fn len(&self) -> (len: usize)
        ensures
            len == self.pairs().len(),
    {
        self.entries.len()
    }

    /// The value of the key that came `i`-th.
    pub fn value_at(&self, i: usize) -> (value: &V)
        requires
            i < self.pairs().len(),
        ensures
            *value == self.pairs()[i as int].1,
    {
        &self.entries[i].1
    }

    fn position(&self, key: &K) -> (found: Option<usize>)
        ensures
            match found {
                Some(i) => i < self.pairs().len() && self.pairs()[i as int].0 == key@,
                None => !has_key(self.pairs(), key@),
            },
    {
        let mut i: usize = 0;
        while i < self.entries.len()
            invariant
                i <= self.entries.len(),
                self.pairs().len() == self.entries.len(),
                forall|j: int| 0 <= j < i ==> (#[trigger] self.pairs()[j]).0 != key@,
            decreases self.entries.len() - i,
        {
            if self.entries[i].0.same_key(key) {
                return Some(i);
            }
            i += 1;
        }
        None
    }

    /// The value of `key`, which is `default` where the key is new.
    pub fn entry_or_insert(&mut self, key: K, default: V) -> (value: &mut V)
        requires
            old(self).wf(),
        ensures
            final(self).wf(),
            *value == if old(self)@.contains_key(key@) {
                old(self)@[key@]
            } else {
                default
            },
            final(self)@ == old(self)@.insert(key@, *final(value)),
            final(self).pairs() == if has_key(old(self).pairs(), key@) {
                old(self).pairs().update(
                    index_of_key(old(self).pairs(), key@),
                    (key@, *final(value)),
                )
            } else {
                old(self).pairs().push((key@, *final(value)))
            },
    {
        let ghost before = self.pairs();
        let ghost name = key@;
        let i: usize = match self.position(&key) {
            Some(i) => {
                proof {
                    lemma_index(before, i as int);
                }
                i
            },
            None => {
                proof {
                    lemma_push(before, name, default);
                }
                self.entries.push((key, default));
                assert(self.pairs() =~= before.push((name, default)));
                self.entries.len() - 1
            },
        };
        let ghost held = self.pairs();
        let ghost after = *final(self);
        let value = &mut self.entries[i].1;
        proof {
            let given = *final(value);
            lemma_update(held, i as int, given);
            assert(after.pairs() =~= held.update(i as int, (name, given)));
            if has_key(before, name) {
                assert(held == before);
            } else {
                lemma_push(before, name, given);
                assert(held.update(i as int, (name, given)) =~= before.push((name, given)));
            }
        }
        value
    }

    /// Gives `key` the value `value`, whether or not it had one.
    pub fn insert(&mut self, key: K, value: V)
        requires
            old(self).wf(),
        ensures
            final(self).wf(),
            final(self)@ == old(self)@.insert(key@, value),
            final(self).pairs() == if has_key(old(self).pairs(), key@) {
                old(self).pairs().update(index_of_key(old(self).pairs(), key@), (key@, value))
            } else {
                old(self).pairs().push((key@, value))
            },
    {
        match self.position(&key) {
            Some(i) => {
                proof {
                    lemma_index(self.pairs(), i as int);
                    lemma_update(self.pairs(), i as int, value);
                }
                self.entries[i].1 = value;
                assert(self.pairs() =~= old(self).pairs().update(i as int, (key@, value)));
            },
            None => {
                proof {
                    lemma_push(self.pairs(), key@, value);
                }
                self.entries.push((key, value));
                assert(self.pairs() =~= old(self).pairs().push((key@, value)));
            },
        }
    }

    pub fn get_mut(&mut self, key: &K) -> (value: Option<&mut V>)
        requires
            old(self).wf(),
        ensures
            final(self).wf(),
            match value {
                Some(value) => {
                    &&& old(self)@.contains_key(key@)
                    &&& *value == old(self)@[key@]
                    &&& final(self)@ == old(self)@.insert(key@, *final(value))
                    &&& final(self).pairs() == old(self).pairs().update(
                        index_of_key(old(self).pairs(), key@),
                        (key@, *final(value)),
                    )
                },
                None => !old(self)@.contains_key(key@) && *final(self) == *old(self),
            },
    {
        match self.position(key) {
            Some(i) => {
                let ghost held = self.pairs();
                let ghost after = *final(self);
                let value = &mut self.entries[i].1;
                proof {
                    lemma_index(held, i as int);
                    lemma_update(held, i as int, *final(value));
                    assert(after.pairs() =~= held.update(i as int, (key@, *final(value))));
                }
                Some(value)
            },
            None => None,
        }
    }

    pub fn remove(&mut self, key: &K) -> (value: Option<V>)
        requires
            old(self).wf(),
        ensures
            final(self).wf(),
            final(self)@ == old(self)@.remove(key@),
            match value {
                Some(value) => {
                    &&& old(self)@.contains_key(key@)
                    &&& old(self)@[key@] == value
                    &&& final(self).pairs() == old(self).pairs().remove(
                        index_of_key(old(self).pairs(), key@),
                    )
                },
                None => !old(self)@.contains_key(key@) && *final(self) == *old(self),
            },
    {
        match self.position(key) {
            Some(i) => {
                proof {
                    lemma_index(self.pairs(), i as int);
                    lemma_remove(self.pairs(), i as int);
                }
                let entry = self.entries.remove(i);
                assert(self.pairs() =~= old(self).pairs().remove(i as int));
                Some(entry.1)
            },
            None => {
                assert(self@.remove(key@) =~= self@);
                None
            },
        }
    }
}

} // verus!
