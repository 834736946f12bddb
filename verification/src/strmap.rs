//! A map keyed by strings, kept as a list of entries with distinct keys.

use vstd::prelude::*;
use crate::json::str_eq;

verus! {

/// No key occurs twice among the entries.
pub open spec fn keys_distinct<V>(e: Seq<(String, V)>) -> bool {
    forall|i: int, j: int| 0 <= i < j < e.len() ==> e[i].0@ != e[j].0@
}

/// The map the entries stand for; a later entry wins over an earlier one.
pub open spec fn map_of<V>(e: Seq<(String, V)>) -> Map<Seq<char>, V>
    decreases e.len(),
{
    if e.len() == 0 {
        Map::empty()
    } else {
        map_of(e.drop_last()).insert(e.last().0@, e.last().1)
    }
}

pub proof fn lemma_map_of_domain<V>(e: Seq<(String, V)>, k: Seq<char>)
    ensures
        map_of(e).contains_key(k) <==> exists|i: int| 0 <= i < e.len() && e[i].0@ == k,
    decreases e.len(),
{
    if e.len() > 0 {
        lemma_map_of_domain(e.drop_last(), k);
        if map_of(e.drop_last()).contains_key(k) {
            let i = choose|i: int| 0 <= i < e.drop_last().len() && e.drop_last()[i].0@ == k;
            assert(e[i].0@ == k);
        }
        if exists|i: int| 0 <= i < e.len() && e[i].0@ == k {
            let i = choose|i: int| 0 <= i < e.len() && e[i].0@ == k;
            if i < e.len() - 1 {
                assert(e.drop_last()[i].0@ == k);
            }
        }
    }
}

pub proof fn lemma_map_of_value<V>(e: Seq<(String, V)>, i: int)
    requires
        keys_distinct(e),
        0 <= i < e.len(),
    ensures
        map_of(e).contains_key(e[i].0@),
        map_of(e)[e[i].0@] == e[i].1,
    decreases e.len(),
{
    if i < e.len() - 1 {
        assert(e.drop_last()[i] == e[i]);
        lemma_map_of_value(e.drop_last(), i);
    }
}

pub proof fn lemma_map_of_push<V>(e: Seq<(String, V)>, k: String, v: V)
    ensures
        map_of(e.push((k, v))) == map_of(e).insert(k@, v),
{
    assert(e.push((k, v)).drop_last() =~= e);
}

pub proof fn lemma_map_of_update<V>(e: Seq<(String, V)>, i: int, k: String, v: V)
    requires
        keys_distinct(e),
        0 <= i < e.len(),
        e[i].0@ == k@,
    ensures
        map_of(e.update(i, (k, v))) =~= map_of(e).insert(k@, v),
        keys_distinct(e.update(i, (k, v))),
    decreases e.len(),
{
    let u = e.update(i, (k, v));
    if i == e.len() - 1 {
        assert(u.drop_last() =~= e.drop_last());
        assert(map_of(e.drop_last()).insert(k@, e.last().1).insert(k@, v) =~= map_of(
            e.drop_last(),
        ).insert(k@, v));
    } else {
        assert(u.drop_last() =~= e.drop_last().update(i, (k, v)));
        lemma_map_of_update(e.drop_last(), i, k, v);
        assert(e.last().0@ != k@);
        assert(map_of(e.drop_last()).insert(k@, v).insert(e.last().0@, e.last().1) =~= map_of(
            e.drop_last(),
        ).insert(e.last().0@, e.last().1).insert(k@, v));
    }
}

/// A map from strings to values.
#[derive(Debug)]
pub struct StrMap<V> {
    entries: Vec<(String, V)>,
}

impl<V> View for StrMap<V> {
    type V = Map<Seq<char>, V>;

    closed spec fn view(&self) -> Map<Seq<char>, V> {
        map_of(self.entries@)
    }
}

impl<V> StrMap<V> {
    #[verifier::type_invariant]
    closed spec fn inv(self) -> bool {
        keys_distinct(self.entries@)
    }

    /// The entries, in insertion order.
    pub closed spec fn spec_entries(&self) -> Seq<(String, V)> {
        self.entries@
    }

    /// An empty map.
    pub fn new() -> (r: Self)
        ensures
            r@ == Map::<Seq<char>, V>::empty(),
            r.spec_entries().len() == 0,
    {
        StrMap { entries: Vec::new() }
    }

    fn find(&self, key: &str) -> (r: Option<usize>)
        ensures
            match r {
                Some(i) => i < self.entries@.len() && self.entries@[i as int].0@ == key@,
                None => forall|j: int| 0 <= j < self.entries@.len() ==> self.entries@[j].0@ != key@,
            },
    {
        let mut i: usize = 0;
        while i < self.entries.len()
            invariant
                i <= self.entries@.len(),
                forall|j: int| 0 <= j < i ==> self.entries@[j].0@ != key@,
            decreases self.entries.len() - i,
        {
            if str_eq(self.entries[i].0.as_str(), key) {
                return Some(i);
            }
            i = i + 1;
        }
        None
    }

    /// True when `key` has a value.
    pub fn contains_key(&self, key: &str) -> (r: bool)
        ensures
            r == self@.contains_key(key@),
    {
        proof {
            lemma_map_of_domain(self.entries@, key@);
        }
        self.find(key).is_some()
    }

    /// The value of `key`, if any.
    pub fn get(&self, key: &str) -> (r: Option<&V>)
        ensures
            match r {
                Some(v) => self@.contains_key(key@) && self@[key@] == *v,
                None => !self@.contains_key(key@),
            },
    {
        proof {
            use_type_invariant(self);
            lemma_map_of_domain(self.entries@, key@);
        }
        match self.find(key) {
            Some(i) => {
                proof {
                    lemma_map_of_value(self.entries@, i as int);
                }
                Some(&self.entries[i].1)
            },
            None => None,
        }
    }

    /// Sets the value of `key`, replacing any previous one.
    pub fn insert(&mut self, key: String, value: V)
        ensures
            final(self)@ == old(self)@.insert(key@, value),
    {
        proof {
            use_type_invariant(&*self);
        }
        let found = self.find(key.as_str());
        let mut e: Vec<(String, V)> = Vec::new();
        std::mem::swap(&mut e, &mut self.entries);
        match found {
            Some(i) => {
                proof {
                    lemma_map_of_update(e@, i as int, key, value);
                }
                e.set(i, (key, value));
            },
            None => {
                proof {
                    lemma_map_of_push(e@, key, value);
                    assert(keys_distinct(e@.push((key, value))));
                }
                e.push((key, value));
            },
        }
        self.entries = e;
    }

    /// The entries, in insertion order.
    pub fn entries(&self) -> (r: &Vec<(String, V)>)
        ensures
            r@ == self.spec_entries(),
            keys_distinct(r@),
            map_of(r@) == self@,
    {
        proof {
            use_type_invariant(self);
        }
        &self.entries
    }

    /// Number of keys.
    pub fn len(&self) -> (r: usize)
        ensures
            r == self.spec_entries().len(),
    {
        self.entries.len()
    }

    /// True when the map has no key.
    pub fn is_empty(&self) -> (r: bool)
        ensures
            r == (self@ == Map::<Seq<char>, V>::empty()),
    {
        proof {
            if self.entries@.len() > 0 {
                lemma_map_of_domain(self.entries@, self.entries@[0].0@);
                assert(!Map::<Seq<char>, V>::empty().contains_key(self.entries@[0].0@));
            } else {
                assert(self@ =~= Map::<Seq<char>, V>::empty());
            }
        }
        self.entries.len() == 0
    }
}

} // verus!
