use vstd::prelude::*;

use crate::key::Key;

verus! {

/// The map that a sequence of `(key, value)` slots stands for.
pub open spec fn map_of<V>(s: Seq<(Key, V)>) -> Map<Seq<u8>, V>
    decreases s.len(),
{
    if s.len() == 0 {
        Map::empty()
    } else {
        map_of(s.drop_last()).insert(s.last().0@, s.last().1)
    }
}

/// No two slots share a key.
pub open spec fn unique_keys<V>(s: Seq<(Key, V)>) -> bool {
    forall|i: int, j: int| 0 <= i < j < s.len() ==> s[i].0@ != s[j].0@
}

proof fn lemma_map_of_keys<V>(s: Seq<(Key, V)>)
    requires
        unique_keys(s),
    ensures
        forall|k: Seq<u8>|
            map_of(s).contains_key(k) <==> exists|i: int| 0 <= i < s.len() && s[i].0@ == k,
        forall|i: int| 0 <= i < s.len() ==> map_of(s)[#[trigger] s[i].0@] == s[i].1,
    decreases s.len(),
{
    if s.len() > 0 {
        let t = s.drop_last();
        lemma_map_of_keys(t);
        assert forall|k: Seq<u8>|
            map_of(s).contains_key(k) <==> exists|i: int| 0 <= i < s.len() && s[i].0@ == k by {
            assert(map_of(s) == map_of(t).insert(s.last().0@, s.last().1));
            if map_of(s).contains_key(k) && k != s.last().0@ {
                assert(map_of(t).contains_key(k));
                let i = choose|i: int| 0 <= i < t.len() && t[i].0@ == k;
                assert(s[i] == t[i]);
            }
            if map_of(s).contains_key(k) && k == s.last().0@ {
                assert(s[s.len() - 1].0@ == k);
            }
            if exists|i: int| 0 <= i < s.len() && s[i].0@ == k {
                let i = choose|i: int| 0 <= i < s.len() && s[i].0@ == k;
                if i < t.len() {
                    assert(t[i] == s[i]);
                    assert(map_of(t).contains_key(k));
                }
            }
        }
        assert forall|i: int| 0 <= i < s.len() implies map_of(s)[#[trigger] s[i].0@] == s[i].1 by {
            if i < t.len() {
                assert(t[i] == s[i]);
            }
        }
    }
}

proof fn lemma_map_of_update<V>(s: Seq<(Key, V)>, i: int, kv: (Key, V))
    requires
        unique_keys(s),
        0 <= i < s.len(),
        kv.0@ == s[i].0@,
    ensures
        unique_keys(s.update(i, kv)),
        map_of(s.update(i, kv)) == map_of(s).insert(kv.0@, kv.1),
    decreases s.len(),
{
    let u = s.update(i, kv);
    if i == s.len() - 1 {
        assert(u.drop_last() =~= s.drop_last());
    } else {
        let t = s.drop_last();
        lemma_map_of_update(t, i, kv);
        assert(u.drop_last() =~= t.update(i, kv));
        assert(s.last().0@ != kv.0@);
    }
    assert(map_of(u) =~= map_of(s).insert(kv.0@, kv.1));
}

proof fn lemma_map_of_remove<V>(s: Seq<(Key, V)>, i: int)
    requires
        unique_keys(s),
        0 <= i < s.len(),
    ensures
        unique_keys(s.remove(i)),
        map_of(s.remove(i)) == map_of(s).remove(s[i].0@),
    decreases s.len(),
{
    let r = s.remove(i);
    let k = s[i].0@;
    if i == s.len() - 1 {
        assert(r =~= s.drop_last());
        lemma_map_of_keys(r);
        assert(!map_of(r).contains_key(k));
    } else {
        let t = s.drop_last();
        lemma_map_of_remove(t, i);
        assert(r.drop_last() =~= t.remove(i));
        assert(r.last() == s.last());
    }
    assert(map_of(r) =~= map_of(s).remove(k));
}

/// A finite map from keys to values, kept as a vector of slots with distinct
/// keys.
pub struct Table<V> {
    slots: Vec<(Key, V)>,
}

impl<V> Table<V> {
    pub closed spec fn view(&self) -> Map<Seq<u8>, V> {
        map_of(self.slots@)
    }

    pub closed spec fn wf(&self) -> bool {
        unique_keys(self.slots@)
    }

    pub fn new() -> (r: Self)
        ensures
            r.wf(),
            r.view() == Map::<Seq<u8>, V>::empty(),
    {
        Table { slots: Vec::new() }
    }

    fn find(&self, k: &Key) -> (r: Option<usize>)
        requires
            self.wf(),
        ensures
            match r {
                Some(i) => i < self.slots@.len() && self.slots@[i as int].0@ == k@,
                None => !self.view().contains_key(k@),
            },
    {
        proof {
            lemma_map_of_keys(self.slots@);
        }
        let mut i: usize = 0;
        while i < self.slots.len()
            invariant
                i <= self.slots@.len(),
                forall|j: int| 0 <= j < i ==> self.slots@[j].0@ != k@,
            decreases self.slots@.len() - i,
        {
            if self.slots[i].0.same_as(k) {
                return Some(i);
            }
            i = i + 1;
        }
        None
    }

    /// The value under `k`, if any.
    pub fn get(&self, k: &Key) -> (r: Option<&V>)
        requires
            self.wf(),
        ensures
            match r {
                Some(v) => self.view().contains_key(k@) && *v == self.view()[k@],
                None => !self.view().contains_key(k@),
            },
    {
        proof {
            lemma_map_of_keys(self.slots@);
        }
        match self.find(k) {
            Some(i) => {
                assert(self.view().contains_key(self.slots@[i as int].0@));
                Some(&self.slots[i].1)
            },
            None => None,
        }
    }

    /// Puts `v` under `k`, replacing what stood there.
    pub fn insert(&mut self, k: Key, v: V)
        requires
            old(self).wf(),
        ensures
            final(self).wf(),
            final(self).view() == old(self).view().insert(k@, v),
    {
        match self.find(&k) {
            Some(i) => {
                proof {
                    lemma_map_of_update(self.slots@, i as int, (k, v));
                }
                self.slots.set(i, (k, v));
            },
            None => {
                proof {
                    lemma_map_of_keys(self.slots@);
                    let s2 = self.slots@.push((k, v));
                    assert(s2.drop_last() =~= self.slots@);
                    assert forall|i: int, j: int| 0 <= i < j < s2.len() implies s2[i].0@
                        != s2[j].0@ by {
                        if j == self.slots@.len() {
                            assert(s2[i] == self.slots@[i]);
                        }
                    }
                }
                self.slots.push((k, v));
            },
        }
    }

    /// Takes out the value under `k`, if any.
    pub fn remove(&mut self, k: &Key) -> (r: Option<V>)
        requires
            old(self).wf(),
        ensures
            final(self).wf(),
            final(self).view() == old(self).view().remove(k@),
            match r {
                Some(v) => old(self).view().contains_key(k@) && v == old(self).view()[k@],
                None => !old(self).view().contains_key(k@),
            },
    {
        proof {
            lemma_map_of_keys(self.slots@);
        }
        match self.find(k) {
            Some(i) => {
                proof {
                    lemma_map_of_remove(self.slots@, i as int);
                }
                let (_, v) = self.slots.remove(i);
                Some(v)
            },
            None => {
                assert(old(self).view().remove(k@) =~= old(self).view());
                None
            },
        }
    }
}

} // verus!
