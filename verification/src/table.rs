//! Tables keyed by text: no key occurs twice, and what was put in first stays first.

use crate::text;
use vstd::prelude::*;

verus! {

/// Values by key.
#[derive(Debug)]
pub struct Table<T> {
    entries: Vec<(String, T)>,
}

/// The keys and values, each by its view.
pub open spec fn entry_views<T: View>(v: Seq<(String, T)>) -> Seq<(Seq<char>, T::V)> {
    Seq::new(v.len(), |i: int| (v[i].0@, v[i].1@))
}

impl<T: View> View for Table<T> {
    type V = Seq<(Seq<char>, T::V)>;

    closed spec fn view(&self) -> Seq<(Seq<char>, T::V)> {
        entry_views(self.entries@)
    }
}

/// Whether no key occurs twice.
pub open spec fn keys_distinct<V>(es: Seq<(Seq<char>, V)>) -> bool {
    forall|i: int, j: int| 0 <= i < j < es.len() ==> (#[trigger] es[i]).0 != (#[trigger] es[j]).0
}

/// What stands under a key.
pub open spec fn lookup<V>(es: Seq<(Seq<char>, V)>, key: Seq<char>) -> Option<V>
    decreases es.len(),
{
    if es.len() == 0 {
        None
    } else if es[0].0 == key {
        Some(es[0].1)
    } else {
        lookup(es.skip(1), key)
    }
}

/// The entries with the value under the key: in the place of the old one, else at the end.
pub open spec fn put<V>(es: Seq<(Seq<char>, V)>, key: Seq<char>, value: V) -> Seq<(Seq<char>, V)>
    decreases es.len(),
{
    if es.len() == 0 {
        seq![(key, value)]
    } else if es[0].0 == key {
        seq![(key, value)] + es.skip(1)
    } else {
        seq![es[0]] + put(es.skip(1), key, value)
    }
}

/// The entries without the one under the key.
pub open spec fn removed<V>(es: Seq<(Seq<char>, V)>, key: Seq<char>) -> Seq<(Seq<char>, V)>
    decreases es.len(),
{
    if es.len() == 0 {
        es
    } else if es[0].0 == key {
        es.skip(1)
    } else {
        seq![es[0]] + removed(es.skip(1), key)
    }
}

/// Whether a key stands at the position and at none before it; behind the last entry if the key
/// is missing.
spec fn placed_at<V>(es: Seq<(Seq<char>, V)>, key: Seq<char>, n: int) -> bool {
    &&& 0 <= n <= es.len()
    &&& n < es.len() ==> es[n].0 == key
    &&& forall|i: int| 0 <= i < n ==> (#[trigger] es[i]).0 != key
}

proof fn lemma_placed<V>(es: Seq<(Seq<char>, V)>, key: Seq<char>, value: V, n: int)
    requires
        placed_at(es, key, n),
    ensures
        lookup(es, key) == (if n < es.len() {
            Some(es[n].1)
        } else {
            None
        }),
        put(es, key, value) == (if n < es.len() {
            es.update(n, (key, value))
        } else {
            es.push((key, value))
        }),
        removed(es, key) == (if n < es.len() {
            es.remove(n)
        } else {
            es
        }),
    decreases n,
{
    if n > 0 {
        let rest = es.skip(1);
        assert(es[0].0 != key);
        assert forall|i: int| 0 <= i < n - 1 implies (#[trigger] rest[i]).0 != key by {
            assert(rest[i] == es[i + 1]);
        }
        lemma_placed(rest, key, value, n - 1);
        if n < es.len() {
            assert(seq![es[0]] + rest.update(n - 1, (key, value)) =~= es.update(n, (key, value)));
            assert(seq![es[0]] + rest.remove(n - 1) =~= es.remove(n));
        } else {
            assert(seq![es[0]] + rest.push((key, value)) =~= es.push((key, value)));
            assert(seq![es[0]] + rest =~= es);
        }
    } else if es.len() > 0 {
        assert(seq![(key, value)] + es.skip(1) =~= es.update(0, (key, value)));
        assert(es.skip(1) =~= es.remove(0));
    } else {
        assert(seq![(key, value)] =~= es.push((key, value)));
    }
}

spec fn place<V>(es: Seq<(Seq<char>, V)>, key: Seq<char>) -> int
    decreases es.len(),
{
    if es.len() == 0 || es[0].0 == key {
        0
    } else {
        1 + place(es.skip(1), key)
    }
}

proof fn lemma_place<V>(es: Seq<(Seq<char>, V)>, key: Seq<char>)
    ensures
        placed_at(es, key, place(es, key)),
    decreases es.len(),
{
    if es.len() > 0 && es[0].0 != key {
        let rest = es.skip(1);
        lemma_place(rest, key);
        let n = place(es, key);
        assert forall|i: int| 0 <= i < n implies (#[trigger] es[i]).0 != key by {
            if i > 0 {
                assert(rest[i - 1] == es[i]);
            }
        }
    }
}

/// What was put under a key stands there, and nothing else has changed.
pub proof fn law_lookup_put<V>(
    es: Seq<(Seq<char>, V)>,
    key: Seq<char>,
    value: V,
    other: Seq<char>,
)
    ensures
        lookup(put(es, key, value), other) == (if other == key {
            Some(value)
        } else {
            lookup(es, other)
        }),
    decreases es.len(),
{
    let after = put(es, key, value);
    if es.len() == 0 {
        assert(after.skip(1) =~= es);
    } else if es[0].0 == key {
        assert(after.skip(1) =~= es.skip(1));
    } else {
        law_lookup_put(es.skip(1), key, value, other);
        assert(after.skip(1) =~= put(es.skip(1), key, value));
    }
}

/// What was removed is gone, and nothing else has changed.
pub proof fn law_lookup_removed<V>(es: Seq<(Seq<char>, V)>, key: Seq<char>, other: Seq<char>)
    requires
        keys_distinct(es),
    ensures
        lookup(removed(es, key), other) == (if other == key {
            None
        } else {
            lookup(es, other)
        }),
    decreases es.len(),
{
    if es.len() > 0 {
        let rest = es.skip(1);
        assert(keys_distinct(rest)) by {
            assert forall|i: int, j: int| 0 <= i < j < rest.len() implies (#[trigger] rest[i]).0
                != (#[trigger] rest[j]).0 by {
                assert(es[i + 1].0 != es[j + 1].0);
            }
        }
        if es[0].0 == key {
            if other == key {
                assert forall|i: int| 0 <= i < rest.len() implies (#[trigger] rest[i]).0
                    != key by {
                    assert(es[0].0 != es[i + 1].0);
                }
                lemma_placed(rest, key, es[0].1, rest.len() as int);
            }
        } else {
            law_lookup_removed(rest, key, other);
            assert(removed(es, key).skip(1) =~= removed(rest, key));
        }
    }
}

/// Putting and removing keep the keys distinct.
pub proof fn law_keys_distinct<V>(es: Seq<(Seq<char>, V)>, key: Seq<char>, value: V)
    requires
        keys_distinct(es),
    ensures
        keys_distinct(put(es, key, value)),
        keys_distinct(removed(es, key)),
{
    lemma_place(es, key);
    lemma_placed(es, key, value, place(es, key));
}

impl<T: View> Table<T> {
    pub fn new() -> (r: Self)
        ensures
            r@ == Seq::<(Seq<char>, T::V)>::empty(),
    {
        let r = Table { entries: Vec::new() };
        assert(r@ =~= Seq::<(Seq<char>, T::V)>::empty());
        r
    }

    /// How many entries there are.
    pub fn len(&self) -> (r: usize)
        ensures
            r == self@.len(),
    {
        self.entries.len()
    }

    /// Whether there is no entry.
    pub fn is_empty(&self) -> (r: bool)
        ensures
            r == (self@.len() == 0),
    {
        self.entries.len() == 0
    }

    fn position(&self, key: &str) -> (r: usize)
        ensures
            placed_at(self@, key@, r as int),
    {
        let mut i: usize = 0;
        while i < self.entries.len()
            invariant
                i <= self.entries@.len(),
                forall|j: int| 0 <= j < i ==> (#[trigger] self@[j]).0 != key@,
            decreases self.entries@.len() - i,
        {
            if text::str_eq(self.entries[i].0.as_str(), key) {
                return i;
            }
            i = i + 1;
        }
        i
    }

    /// What stands under the key.
    pub fn get(&self, key: &str) -> (r: Option<&T>)
        ensures
            match lookup(self@, key@) {
                Some(v) => r is Some && (r->0)@ == v,
                None => r is None,
            },
    {
        let i: usize = self.position(key);
        if i < self.entries.len() {
            proof {
                lemma_placed(self@, key@, self@[i as int].1, i as int);
            }
            Some(&self.entries[i].1)
        } else {
            proof {
                lemma_placed(self@, key@, arbitrary(), i as int);
            }
            None
        }
    }

    /// Whether something stands under the key.
    pub fn contains_key(&self, key: &str) -> (r: bool)
        ensures
            r == lookup(self@, key@) is Some,
    {
        self.get(key).is_some()
    }

    /// The key and the value at a position.
    pub fn entry(&self, i: usize) -> (r: (&str, &T))
        requires
            i < self@.len(),
        ensures
            r.0@ == self@[i as int].0,
            r.1@ == self@[i as int].1,
    {
        (self.entries[i].0.as_str(), &self.entries[i].1)
    }

    /// Put a value under a key.
    pub fn insert(&mut self, key: String, value: T)
        ensures
            final(self)@ == put(old(self)@, key@, value@),
    {
        let i: usize = self.position(key.as_str());
        proof {
            lemma_placed(self@, key@, value@, i as int);
        }
        if i < self.entries.len() {
            self.entries.set(i, (key, value));
            assert(self@ =~= old(self)@.update(i as int, (key@, value@)));
        } else {
            self.entries.push((key, value));
            assert(self@ =~= old(self)@.push((key@, value@)));
        }
    }

    /// Take out what stands under a key.
    pub fn remove(&mut self, key: &str) -> (r: Option<T>)
        ensures
            final(self)@ == removed(old(self)@, key@),
            match lookup(old(self)@, key@) {
                Some(v) => r is Some && (r->0)@ == v,
                None => r is None,
            },
    {
        let i: usize = self.position(key);
        if i < self.entries.len() {
            proof {
                lemma_placed(self@, key@, self@[i as int].1, i as int);
            }
            let (_, value) = self.entries.remove(i);
            assert(self@ =~= old(self)@.remove(i as int));
            Some(value)
        } else {
            proof {
                lemma_placed(self@, key@, arbitrary(), i as int);
            }
            None
        }
    }
}

} // verus!
