//! Maps that keep their entries in the order of their keys.

use vstd::prelude::*;

verus! {

/// A type whose values can be keys: each stands for a model value, and the model values are
/// strictly and totally ordered.
pub trait Key: Sized {
    /// What a key stands for.
    type Model;

    /// What this key stands for.
    spec fn key(&self) -> Self::Model;

    /// The order of the keys.
    spec fn before(a: Self::Model, b: Self::Model) -> bool;

    /// The order is strict and total.
    proof fn strict_total_order(a: Self::Model, b: Self::Model, c: Self::Model)
        ensures
            !Self::before(a, a),
            Self::before(a, b) && Self::before(b, c) ==> Self::before(a, c),
            a == b || Self::before(a, b) || Self::before(b, a),
    ;

    /// Whether this key comes before `other`.
    fn precedes(&self, other: &Self) -> (yes: bool)
        ensures
            yes == Self::before(self.key(), other.key()),
    ;

    /// Whether both keys stand for the same.
    fn same(&self, other: &Self) -> (yes: bool)
        ensures
            yes == (self.key() == other.key()),
    ;
}

/// Whether entries come in the order of their keys, no key twice.
pub open spec fn ascending<K: Key, V>(pairs: Seq<(K, V)>) -> bool {
    forall|i: int, j: int|
        0 <= i < j < pairs.len() ==> K::before(
            (#[trigger] pairs[i]).0.key(),
            (#[trigger] pairs[j]).0.key(),
        )
}

/// Whether the entry at `i` has the key `k`.
pub open spec fn entry_at<K: Key, V>(pairs: Seq<(K, V)>, k: K::Model, i: int) -> bool {
    0 <= i < pairs.len() && pairs[i].0.key() == k
}

/// The map that entries make up.
pub open spec fn map_of<K: Key, V>(pairs: Seq<(K, V)>) -> Map<K::Model, V> {
    Map::new(
        |k: K::Model| exists|i: int| entry_at(pairs, k, i),
        |k: K::Model| pairs[choose|i: int| entry_at(pairs, k, i)].1,
    )
}

/// The map holds each entry under its key.
pub proof fn lemma_entry<K: Key, V>(pairs: Seq<(K, V)>, i: int)
    requires
        ascending(pairs),
        0 <= i < pairs.len(),
    ensures
        map_of(pairs).contains_key(pairs[i].0.key()),
        map_of(pairs)[pairs[i].0.key()] == pairs[i].1,
{
    let k = pairs[i].0.key();
    assert(entry_at(pairs, k, i));
    let j = choose|j: int| entry_at(pairs, k, j);
    K::strict_total_order(k, k, k);
    if i < j {
        assert(K::before(pairs[i].0.key(), pairs[j].0.key()));
    } else if j < i {
        assert(K::before(pairs[j].0.key(), pairs[i].0.key()));
    }
}

/// A map from keys to values. Its entries are kept in ascending order of their keys.
pub struct OrderedMap<K: Key, V> {
    entries: Vec<(K, V)>,
}

impl<K: Key, V> View for OrderedMap<K, V> {
    type V = Map<K::Model, V>;

    /// The map.
    open spec fn view(&self) -> Map<K::Model, V> {
        map_of(self.pairs())
    }
}

impl<K: Key, V> OrderedMap<K, V> {
    #[verifier::type_invariant]
    spec fn wf(self) -> bool {
        ascending(self.entries@)
    }

    /// The entries, in ascending order of their keys.
    pub closed spec fn pairs(&self) -> Seq<(K, V)> {
        self.entries@
    }

    /// The empty map.
    pub fn new() -> (map: OrderedMap<K, V>)
        ensures
            map.pairs() == Seq::<(K, V)>::empty(),
            map@ == Map::<K::Model, V>::empty(),
    {
        let map = OrderedMap { entries: Vec::new() };
        proof {
            assert(map@ =~= Map::<K::Model, V>::empty());
        }
        map
    }

    /// The entries, in ascending order of their keys.
    pub fn entries(&self) -> (entries: &Vec<(K, V)>)
        ensures
            entries@ == self.pairs(),
            ascending(self.pairs()),
    {
        proof {
            use_type_invariant(self);
        }
        &self.entries
    }

    /// How many entries there are.
    pub fn len(&self) -> (n: usize)
        ensures
            n == self.pairs().len(),
    {
        self.entries.len()
    }

    /// Where the key is or belongs: every entry before it has a smaller key, and none from it on.
    fn position(&self, key: &K) -> (at: usize)
        ensures
            at <= self.pairs().len(),
            forall|i: int|
                0 <= i < at ==> K::before((#[trigger] self.pairs()[i]).0.key(), key.key()),
            forall|i: int|
                at <= i < self.pairs().len() ==> !K::before(
                    (#[trigger] self.pairs()[i]).0.key(),
                    key.key(),
                ),
    {
        proof {
            use_type_invariant(self);
        }
        let mut at: usize = 0;
        while at < self.entries.len() && self.entries[at].0.precedes(key)
            invariant
                at <= self.entries@.len(),
                forall|i: int|
                    0 <= i < at ==> K::before((#[trigger] self.entries@[i]).0.key(), key.key()),
            decreases self.entries@.len() - at,
        {
            at = at + 1;
        }
        proof {
            assert forall|i: int| at <= i < self.entries@.len() implies !K::before(
                (#[trigger] self.entries@[i]).0.key(),
                key.key(),
            ) by {
                if i > at {
                    K::strict_total_order(
                        self.entries@[at as int].0.key(),
                        self.entries@[i].0.key(),
                        key.key(),
                    );
                }
            }
        }
        at
    }

    /// The value under a key.
    pub fn get(&self, key: &K) -> (value: Option<&V>)
        ensures
            match value {
                Some(v) => self@.contains_key(key.key()) && *v == self@[key.key()],
                None => !self@.contains_key(key.key()),
            },
    {
        let at: usize = self.position(key);
        proof {
            use_type_invariant(self);
        }
        if at < self.entries.len() && self.entries[at].0.same(key) {
            proof {
                lemma_entry(self.entries@, at as int);
            }
            return Some(&self.entries[at].1);
        }
        proof {
            if self@.contains_key(key.key()) {
                let i = choose|i: int| entry_at(self.pairs(), key.key(), i);
                K::strict_total_order(key.key(), key.key(), key.key());
                if i > at {
                    K::strict_total_order(
                        self.entries@[at as int].0.key(),
                        key.key(),
                        key.key(),
                    );
                    assert(K::before(self.entries@[at as int].0.key(), self.entries@[i].0.key()));
                }
            }
        }
        None
    }

    /// Puts a value under a key, in place of the one that was there.
    pub fn insert(&mut self, key: K, value: V)
        ensures
            final(self)@ == old(self)@.insert(key.key(), value),
    {
        let at: usize = self.position(&key);
        proof {
            use_type_invariant(&*self);
        }
        let ghost k = key.key();
        let ghost before = self.entries@;
        let mut entries: Vec<(K, V)> = Vec::new();
        core::mem::swap(&mut entries, &mut self.entries);
        if at < entries.len() && entries[at].0.same(&key) {
            entries.set(at, (key, value));
            proof {
                assert forall|i: int, j: int| 0 <= i < j < entries@.len() implies K::before(
                    (#[trigger] entries@[i]).0.key(),
                    (#[trigger] entries@[j]).0.key(),
                ) by {
                    assert(K::before(before[i].0.key(), before[j].0.key()));
                }
                lemma_replaced(before, entries@, at as int, (key, value));
            }
        } else {
            entries.insert(at, (key, value));
            proof {
                lemma_inserted(before, entries@, at as int, (key, value));
            }
        }
        self.entries = entries;
    }

    /// Takes the entry under a key out.
    pub fn remove(&mut self, key: &K) -> (value: Option<V>)
        ensures
            match value {
                Some(v) => {
                    &&& old(self)@.contains_key(key.key())
                    &&& v == old(self)@[key.key()]
                    &&& final(self)@ == old(self)@.remove(key.key())
                },
                None => !old(self)@.contains_key(key.key()) && final(self)@ == old(self)@,
            },
    {
        let missing: bool = self.get(key).is_none();
        if missing {
            return None;
        }
        let at: usize = self.position(key);
        proof {
            use_type_invariant(&*self);
        }
        let ghost k = key.key();
        let ghost before = self.entries@;
        proof {
            let i = choose|i: int| entry_at(before, k, i);
            assert(entry_at(before, k, i));
            K::strict_total_order(k, k, k);
            if at < i {
                K::strict_total_order(before[at as int].0.key(), k, k);
                assert(K::before(before[at as int].0.key(), before[i].0.key()));
            }
            assert(at == i);
            lemma_entry(before, at as int);
        }
        let mut entries: Vec<(K, V)> = Vec::new();
        core::mem::swap(&mut entries, &mut self.entries);
        let (_, value) = entries.remove(at);
        proof {
            lemma_removed(before, entries@, at as int);
        }
        self.entries = entries;
        Some(value)
    }
}

/// Replacing an entry replaces its value in the map.
proof fn lemma_replaced<K: Key, V>(
    before: Seq<(K, V)>,
    after: Seq<(K, V)>,
    at: int,
    pair: (K, V),
)
    requires
        ascending(before),
        ascending(after),
        0 <= at < before.len(),
        before[at].0.key() == pair.0.key(),
        after == before.update(at, pair),
    ensures
        map_of(after) == map_of(before).insert(pair.0.key(), pair.1),
{
    let k = pair.0.key();
    lemma_entry(after, at);
    assert forall|m: K::Model| map_of(after).contains_key(m) == map_of(before).insert(
        k,
        pair.1,
    ).contains_key(m) by {
        if map_of(after).contains_key(m) {
            let i = choose|i: int| entry_at(after, m, i);
            assert(entry_at(before, m, i));
        }
        if map_of(before).contains_key(m) {
            let i = choose|i: int| entry_at(before, m, i);
            assert(entry_at(after, m, i));
        }
    }
    assert forall|m: K::Model| map_of(after).contains_key(m) implies map_of(after)[m] == map_of(
        before,
    ).insert(k, pair.1)[m] by {
        let i = choose|i: int| entry_at(after, m, i);
        assert(entry_at(after, m, i));
        lemma_entry(after, i);
        lemma_entry(before, i);
    }
    assert(map_of(after) =~= map_of(before).insert(k, pair.1));
}

/// Inserting an entry where its key belongs adds it to the map.
proof fn lemma_inserted<K: Key, V>(
    before: Seq<(K, V)>,
    after: Seq<(K, V)>,
    at: int,
    pair: (K, V),
)
    requires
        ascending(before),
        0 <= at <= before.len(),
        after == before.insert(at, pair),
        forall|i: int| 0 <= i < at ==> K::before((#[trigger] before[i]).0.key(), pair.0.key()),
        forall|i: int|
            at <= i < before.len() ==> !K::before((#[trigger] before[i]).0.key(), pair.0.key()),
        at < before.len() ==> before[at].0.key() != pair.0.key(),
    ensures
        ascending(after),
        map_of(after) == map_of(before).insert(pair.0.key(), pair.1),
{
    let k = pair.0.key();
    assert forall|i: int| at <= i < before.len() implies K::before(
        k,
        (#[trigger] before[i]).0.key(),
    ) by {
        K::strict_total_order(before[at].0.key(), k, k);
        if i > at {
            assert(K::before(before[at].0.key(), before[i].0.key()));
            K::strict_total_order(k, before[at].0.key(), before[i].0.key());
        }
    }
    assert forall|i: int, j: int| 0 <= i < j < after.len() implies K::before(
        (#[trigger] after[i]).0.key(),
        (#[trigger] after[j]).0.key(),
    ) by {
        let bi = if i < at { i } else { i - 1 };
        let bj = if j < at { j } else { j - 1 };
        if i != at {
            assert(after[i] == before[bi]);
        }
        if j != at {
            assert(after[j] == before[bj]);
        }
    }
    lemma_entry(after, at);
    assert forall|m: K::Model| map_of(after).contains_key(m) == map_of(before).insert(
        k,
        pair.1,
    ).contains_key(m) by {
        if map_of(after).contains_key(m) && m != k {
            let i = choose|i: int| entry_at(after, m, i);
            assert(entry_at(after, m, i));
            assert(entry_at(before, m, if i < at { i } else { i - 1 }));
        }
        if map_of(before).contains_key(m) {
            let i = choose|i: int| entry_at(before, m, i);
            assert(entry_at(before, m, i));
            assert(entry_at(after, m, if i < at { i } else { i + 1 }));
        }
        if m == k {
            assert(entry_at(after, m, at));
        }
    }
    assert forall|m: K::Model| map_of(after).contains_key(m) implies map_of(after)[m] == map_of(
        before,
    ).insert(k, pair.1)[m] by {
        let i = choose|i: int| entry_at(after, m, i);
        assert(entry_at(after, m, i));
        lemma_entry(after, i);
        if i != at {
            let b = if i < at { i } else { i - 1 };
            assert(after[i] == before[b]);
            lemma_entry(before, b);
        }
    }
    assert(map_of(after) =~= map_of(before).insert(k, pair.1));
}

/// Removing an entry takes its key out of the map.
proof fn lemma_removed<K: Key, V>(before: Seq<(K, V)>, after: Seq<(K, V)>, at: int)
    requires
        ascending(before),
        0 <= at < before.len(),
        after == before.remove(at),
    ensures
        ascending(after),
        map_of(after) == map_of(before).remove(before[at].0.key()),
{
    let k = before[at].0.key();
    assert forall|i: int, j: int| 0 <= i < j < after.len() implies K::before(
        (#[trigger] after[i]).0.key(),
        (#[trigger] after[j]).0.key(),
    ) by {
        assert(after[i] == before[if i < at { i } else { i + 1 }]);
        assert(after[j] == before[if j < at { j } else { j + 1 }]);
    }
    assert forall|m: K::Model| map_of(after).contains_key(m) == map_of(before).remove(
        k,
    ).contains_key(m) by {
        K::strict_total_order(k, k, k);
        if map_of(after).contains_key(m) {
            let i = choose|i: int| entry_at(after, m, i);
            assert(entry_at(after, m, i));
            let b = if i < at { i } else { i + 1 };
            assert(entry_at(before, m, b));
            if b < at {
                assert(K::before(before[b].0.key(), before[at].0.key()));
            } else {
                assert(K::before(before[at].0.key(), before[b].0.key()));
            }
        }
        if map_of(before).contains_key(m) && m != k {
            let i = choose|i: int| entry_at(before, m, i);
            assert(entry_at(before, m, i));
            assert(entry_at(after, m, if i < at { i } else { i - 1 }));
        }
    }
    assert forall|m: K::Model| map_of(after).contains_key(m) implies map_of(after)[m] == map_of(
        before,
    ).remove(k)[m] by {
        let i = choose|i: int| entry_at(after, m, i);
        assert(entry_at(after, m, i));
        let b = if i < at { i } else { i + 1 };
        assert(after[i] == before[b]);
        lemma_entry(after, i);
        lemma_entry(before, b);
    }
    assert(map_of(after) =~= map_of(before).remove(k));
}

} // verus!
