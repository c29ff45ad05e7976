//! Key-value settings handed to a task or a monitor when it is built.

use vstd::prelude::*;
use crate::outside::str_equal;
use crate::value::{FromValue, Value, ValueError, ValueModel};

verus! {

/// Whether some pair of `s` has the key `k`.
pub open spec fn has_key(s: Seq<(Seq<char>, ValueModel)>, k: Seq<char>) -> bool {
    exists|i: int| 0 <= i < s.len() && (#[trigger] s[i]).0 == k
}

/// The index of a pair of `s` with the key `k`.
pub open spec fn index_of(s: Seq<(Seq<char>, ValueModel)>, k: Seq<char>) -> int {
    choose|i: int| 0 <= i < s.len() && (#[trigger] s[i]).0 == k
}

/// Whether no key occurs twice in `s`.
pub open spec fn distinct_keys(s: Seq<(Seq<char>, ValueModel)>) -> bool {
    forall|i: int, j: int|
        0 <= i < s.len() && 0 <= j < s.len() && i != j ==> (#[trigger] s[i]).0 != (#[trigger] s[j]).0
}

/// The mapping that a sequence of pairs stands for.
pub open spec fn pairs_map(s: Seq<(Seq<char>, ValueModel)>) -> Map<Seq<char>, ValueModel> {
    Map::new(|k: Seq<char>| has_key(s, k), |k: Seq<char>| s[index_of(s, k)].1)
}

/// What `s` becomes when `k` is set to `v`: the pair with that key is
/// replaced where it stands, or a new pair is added at the end.
pub open spec fn pairs_set(s: Seq<(Seq<char>, ValueModel)>, k: Seq<char>, v: ValueModel) -> Seq<
    (Seq<char>, ValueModel),
> {
    if has_key(s, k) {
        s.update(index_of(s, k), (k, v))
    } else {
        s.push((k, v))
    }
}

/// Setting a key in the pairs inserts it in the mapping, and keeps the keys
/// distinct.
pub proof fn lemma_pairs_set(s: Seq<(Seq<char>, ValueModel)>, k: Seq<char>, v: ValueModel)
    requires
        distinct_keys(s),
    ensures
        distinct_keys(pairs_set(s, k, v)),
        pairs_map(pairs_set(s, k, v)) == pairs_map(s).insert(k, v),
{
    let t = pairs_set(s, k, v);
    if has_key(s, k) {
        let p = index_of(s, k);
        assert forall|i: int, j: int|
            0 <= i < t.len() && 0 <= j < t.len() && i != j implies (#[trigger] t[i]).0 != (
        #[trigger] t[j]).0 by {
            assert(t[i].0 == s[i].0);
            assert(t[j].0 == s[j].0);
        }
        assert forall|q: Seq<char>| has_key(t, q) == (#[trigger] has_key(s, q)) by {
            if has_key(t, q) {
                let i = index_of(t, q);
                assert(s[i].0 == q);
            }
            if has_key(s, q) {
                let i = index_of(s, q);
                assert(t[i].0 == q);
            }
        }
    } else {
        assert forall|i: int, j: int|
            0 <= i < t.len() && 0 <= j < t.len() && i != j implies (#[trigger] t[i]).0 != (
        #[trigger] t[j]).0 by {
            if i < s.len() {
                assert(t[i] == s[i]);
            }
            if j < s.len() {
                assert(t[j] == s[j]);
            }
        }
        assert(t[s.len() as int].0 == k);
        assert forall|q: Seq<char>| #[trigger] has_key(t, q) == (has_key(s, q) || q == k) by {
            if has_key(t, q) {
                let i = index_of(t, q);
                if i < s.len() {
                    assert(s[i].0 == q);
                }
            }
            if has_key(s, q) {
                let i = index_of(s, q);
                assert(t[i].0 == q);
            }
        }
    }
    let m1 = pairs_map(t);
    let m2 = pairs_map(s).insert(k, v);
    assert forall|q: Seq<char>| m1.dom().contains(q) == m2.dom().contains(q) by {}
    assert forall|q: Seq<char>| #[trigger] m1.dom().contains(q) implies m1[q] == m2[q] by {
        let i = index_of(t, q);
        assert(t[i].0 == q);
        if q == k {
            if has_key(s, k) {
                let p = index_of(s, k);
                assert(t[p].0 == k);
            } else {
                assert(t[s.len() as int].0 == k);
            }
        } else {
            assert(s[i].0 == q);
            let p = index_of(s, q);
            assert(s[p].0 == q);
        }
    }
    assert(m1 =~= m2);
}

/// The settings of one component: a mapping from keys to values. The pairs
/// are kept in the order in which their keys were first set.
#[derive(Debug)]
pub struct ComponentConfig {
    entries: Vec<(String, Value)>,
}

impl View for ComponentConfig {
    type V = Map<Seq<char>, ValueModel>;

    open spec fn view(&self) -> Map<Seq<char>, ValueModel> {
        pairs_map(self.pairs())
    }
}

impl ComponentConfig {
    #[verifier::type_invariant]
    spec fn keys_are_distinct(&self) -> bool {
        distinct_keys(self.pairs())
    }

    /// The pairs in the order in which their keys were first set.
    pub closed spec fn pairs(&self) -> Seq<(Seq<char>, ValueModel)> {
        Seq::new(self.entries@.len(), |i: int| (self.entries@[i].0@, self.entries@[i].1@))
    }

    /// Whether no key occurs twice. It holds of every value of this type.
    pub open spec fn wf(&self) -> bool {
        distinct_keys(self.pairs())
    }

    /// A config without settings.
    pub fn new() -> (r: Self)
        ensures
            r.pairs() == Seq::<(Seq<char>, ValueModel)>::empty(),
            r@ == Map::<Seq<char>, ValueModel>::empty(),
            r.wf(),
    {
        let r = ComponentConfig { entries: Vec::new() };
        assert(r.pairs() =~= Seq::<(Seq<char>, ValueModel)>::empty());
        assert(r@ =~= Map::<Seq<char>, ValueModel>::empty());
        r
    }

    /// The position of `key` among the entries.
    fn find(&self, key: &str) -> (r: Option<usize>)
        ensures
            self.wf(),
            match r {
                Some(i) => i < self.pairs().len() && self.pairs()[i as int].0 == key@
                    && has_key(self.pairs(), key@) && index_of(self.pairs(), key@) == i,
                None => !has_key(self.pairs(), key@),
            },
    {
        proof {
            use_type_invariant(self);
        }
        let mut i: usize = 0;
        while i < self.entries.len()
            invariant
                i <= self.entries.len(),
                self.wf(),
                forall|j: int| 0 <= j < i ==> (#[trigger] self.pairs()[j]).0 != key@,
                self.pairs().len() == self.entries@.len(),
            decreases self.entries.len() - i,
        {
            if str_equal(self.entries[i].0.as_str(), key) {
                assert(self.pairs()[i as int].0 == key@);
                return Some(i);
            }
            i = i + 1;
        }
        None
    }

    /// The value under `key` read as `T`: `None` where the key is not set.
    pub fn get<T: FromValue>(&self, key: &str) -> (r: Option<Result<T, ValueError>>)
        ensures
            match r {
                Some(read) => self@.dom().contains(key@) && T::reads_as(self@[key@], read),
                None => !self@.dom().contains(key@),
            },
    {
        match self.find(key) {
            Some(i) => Some(T::from_value(&self.entries[i].1)),
            None => None,
        }
    }

    /// Sets `key` to `value`, replacing what stood under it.
    pub fn set(&mut self, key: &str, value: Value)
        ensures
            final(self)@ == old(self)@.insert(key@, value@),
            final(self).pairs() == pairs_set(old(self).pairs(), key@, value@),
            final(self).wf(),
    {
        proof {
            use_type_invariant(&*self);
            lemma_pairs_set(self.pairs(), key@, value@);
        }
        let found = self.find(key);
        let ghost before = self.pairs();
        let ghost v = value@;
        let mut entries: Vec<(String, Value)> = Vec::new();
        std::mem::swap(&mut self.entries, &mut entries);
        match found {
            Some(i) => {
                let k = entries[i].0.clone();
                entries.set(i, (k, value));
                assert(Seq::new(entries@.len(), |j: int| (entries@[j].0@, entries@[j].1@))
                    =~= before.update(i as int, (key@, v)));
                self.entries = entries;
            },
            None => {
                let k = String::from_str(key);
                entries.push((k, value));
                assert(Seq::new(entries@.len(), |j: int| (entries@[j].0@, entries@[j].1@))
                    =~= before.push((key@, v)));
                self.entries = entries;
            },
        }
    }

    /// The number of settings.
    pub fn len(&self) -> (n: usize)
        ensures
            n == self.pairs().len(),
    {
        self.entries.len()
    }

    /// The key of the setting at `i`.
    pub fn key_at(&self, i: usize) -> (k: &str)
        requires
            i < self.pairs().len(),
        ensures
            k@ == self.pairs()[i as int].0,
    {
        self.entries[i].0.as_str()
    }

    /// The value of the setting at `i`.
    pub fn value_at(&self, i: usize) -> (v: &Value)
        requires
            i < self.pairs().len(),
        ensures
            v@ == self.pairs()[i as int].1,
    {
        &self.entries[i].1
    }
}

impl Clone for ComponentConfig {
    fn clone(&self) -> (r: Self)
        ensures
            r.pairs() == self.pairs(),
            r@ == self@,
    {
        proof {
            use_type_invariant(self);
        }
        let mut entries: Vec<(String, Value)> = Vec::new();
        let mut i: usize = 0;
        while i < self.entries.len()
            invariant
                i <= self.entries.len(),
                entries.len() == i,
                forall|j: int|
                    0 <= j < i ==> (#[trigger] entries@[j]).0@ == self.entries@[j].0@
                        && entries@[j].1@ == self.entries@[j].1@,
            decreases self.entries.len() - i,
        {
            let k = self.entries[i].0.clone();
            let v = self.entries[i].1.clone();
            entries.push((k, v));
            i = i + 1;
        }
        let ghost want = self.pairs();
        assert(Seq::new(entries@.len(), |i: int| (entries@[i].0@, entries@[i].1@)) =~= want);
        ComponentConfig { entries }
    }
}

impl Default for ComponentConfig {
    fn default() -> (r: Self)
        ensures
            r.pairs() == Seq::<(Seq<char>, ValueModel)>::empty(),
    {
        ComponentConfig::new()
    }
}

} // verus!
