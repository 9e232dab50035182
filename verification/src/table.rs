//! A small ordered table: distinct keys, each with one value, kept in the
//! order in which the keys were first inserted.

use vstd::prelude::*;
use vstd::std_specs::cmp::PartialEqSpec;

verus! {

/// What a list of pairs means as a map: pairs are inserted from the first to
/// the last, so a later pair replaces an earlier one with the same key.
pub open spec fn collect<A, B>(pairs: Seq<(A, B)>) -> Map<A, B>
    decreases pairs.len(),
{
    if pairs.len() == 0 {
        Map::empty()
    } else {
        collect(pairs.drop_last()).insert(pairs.last().0, pairs.last().1)
    }
}

/// No two pairs have the same key.
pub open spec fn distinct_keys<A, B>(pairs: Seq<(A, B)>) -> bool {
    forall|i: int, j: int|
        0 <= i < j < pairs.len() ==> (#[trigger] pairs[i]).0 != (#[trigger] pairs[j]).0
}

/// A collected list maps exactly the keys that occur in it.
pub proof fn lemma_collect_contains<A, B>(pairs: Seq<(A, B)>, key: A)
    ensures
        collect(pairs).contains_key(key) <==> exists|i: int|
            0 <= i < pairs.len() && (#[trigger] pairs[i]).0 == key,
    decreases pairs.len(),
{
    if pairs.len() > 0 {
        let rest = pairs.drop_last();
        lemma_collect_contains(rest, key);
        if exists|i: int| 0 <= i < rest.len() && (#[trigger] rest[i]).0 == key {
            let i = choose|i: int| 0 <= i < rest.len() && (#[trigger] rest[i]).0 == key;
            assert(pairs[i].0 == key);
        }
        if exists|i: int| 0 <= i < pairs.len() && (#[trigger] pairs[i]).0 == key {
            let i = choose|i: int| 0 <= i < pairs.len() && (#[trigger] pairs[i]).0 == key;
            if i < rest.len() {
                assert(rest[i].0 == key);
            }
        }
    }
}

/// With distinct keys, every pair of the list is in the collected map.
pub proof fn lemma_collect_value<A, B>(pairs: Seq<(A, B)>, i: int)
    requires
        distinct_keys(pairs),
        0 <= i < pairs.len(),
    ensures
        collect(pairs).contains_key(pairs[i].0),
        collect(pairs)[pairs[i].0] == pairs[i].1,
    decreases pairs.len(),
{
    if i < pairs.len() - 1 {
        let rest = pairs.drop_last();
        assert(distinct_keys(rest));
        lemma_collect_value(rest, i);
        assert(pairs[i].0 != pairs[pairs.len() - 1].0);
    }
}

/// Replacing the value of one pair inserts that value under the pair's key.
proof fn lemma_collect_update<A, B>(pairs: Seq<(A, B)>, i: int, value: B)
    requires
        distinct_keys(pairs),
        0 <= i < pairs.len(),
    ensures
        distinct_keys(pairs.update(i, (pairs[i].0, value))),
        collect(pairs.update(i, (pairs[i].0, value))) == collect(pairs).insert(pairs[i].0, value),
    decreases pairs.len(),
{
    let changed = pairs.update(i, (pairs[i].0, value));
    let rest = pairs.drop_last();
    if i == pairs.len() - 1 {
        assert(changed.drop_last() =~= rest);
        assert(collect(changed) =~= collect(pairs).insert(pairs[i].0, value));
    } else {
        assert(distinct_keys(rest));
        lemma_collect_update(rest, i, value);
        assert(changed.drop_last() =~= rest.update(i, (rest[i].0, value)));
        assert(pairs[i].0 != pairs[pairs.len() - 1].0);
        assert(collect(changed) =~= collect(pairs).insert(pairs[i].0, value));
    }
}

/// Dropping one pair removes its key.
proof fn lemma_collect_remove<A, B>(pairs: Seq<(A, B)>, i: int)
    requires
        distinct_keys(pairs),
        0 <= i < pairs.len(),
    ensures
        distinct_keys(pairs.remove(i)),
        collect(pairs.remove(i)) == collect(pairs).remove(pairs[i].0),
    decreases pairs.len(),
{
    let left = pairs.remove(i);
    let rest = pairs.drop_last();
    assert forall|a: int, b: int| 0 <= a < b < left.len() implies (#[trigger] left[a]).0 != (
    #[trigger] left[b]).0 by {
        let a0 = if a < i { a } else { a + 1 };
        let b0 = if b < i { b } else { b + 1 };
        assert(left[a] == pairs[a0] && left[b] == pairs[b0]);
    }
    if i == pairs.len() - 1 {
        assert(left =~= rest);
        lemma_collect_contains(rest, pairs[i].0);
        assert(!collect(rest).contains_key(pairs[i].0)) by {
            if collect(rest).contains_key(pairs[i].0) {
                let j = choose|j: int| 0 <= j < rest.len() && (#[trigger] rest[j]).0 == pairs[i].0;
                assert(pairs[j].0 == pairs[i].0);
            }
        }
        assert(collect(left) =~= collect(pairs).remove(pairs[i].0));
    } else {
        assert(distinct_keys(rest));
        lemma_collect_remove(rest, i);
        assert(left.drop_last() =~= rest.remove(i));
        assert(left.last() == pairs.last());
        assert(pairs[i].0 != pairs[pairs.len() - 1].0);
        assert(collect(left) =~= collect(pairs).remove(pairs[i].0));
    }
}

/// A type whose values serve as keys: two keys are the same when their views
/// are.
pub trait Key: View {
    /// Whether the two keys are the same.
    fn same(&self, other: &Self) -> (same: bool)
        ensures
            same == (self@ == other@),
    ;
}

impl Key for String {
    fn same(&self, other: &Self) -> (same: bool) {
        *self == *other
    }
}

/// The views of the pairs of a list.
pub open spec fn pair_views<K: View, V: View>(pairs: Seq<(K, V)>) -> Seq<(K::V, V::V)> {
    pairs.map_values(|pair: (K, V)| (pair.0@, pair.1@))
}

/// A table from keys to values. Its view is a map from key views to value
/// views; `entries` is the same content in insertion order.
#[derive(Debug)]
pub struct Table<K: Key, V: View> {
    pairs: Vec<(K, V)>,
}

impl<K: Key, V: View> View for Table<K, V> {
    type V = Map<K::V, V::V>;

    open spec fn view(&self) -> Map<K::V, V::V> {
        collect(self.entries())
    }
}

impl<K: Key, V: View> Table<K, V> {
    /// The entries, in the order in which their keys were first inserted.
    pub closed spec fn entries(&self) -> Seq<(K::V, V::V)> {
        pair_views(self.pairs@)
    }

    #[verifier::type_invariant]
    spec fn distinct(self) -> bool {
        distinct_keys(pair_views(self.pairs@))
    }

    /// A table without entries.
    pub fn new() -> (table: Self)
        ensures
            table.entries() == Seq::<(K::V, V::V)>::empty(),
            table@ == Map::<K::V, V::V>::empty(),
    {
        let table = Table { pairs: Vec::new() };
        assert(table.entries() =~= Seq::<(K::V, V::V)>::empty());
        table
    }

    /// How many keys the table has.
    pub fn len(&self) -> (len: usize)
        ensures
            len == self.entries().len(),
            distinct_keys(self.entries()),
    {
        proof {
            use_type_invariant(self);
        }
        self.pairs.len()
    }

    /// Whether the table has no key.
    pub fn is_empty(&self) -> (empty: bool)
        ensures
            empty == (self@ == Map::<K::V, V::V>::empty()),
            empty == (self.entries().len() == 0),
    {
        proof {
            if self.entries().len() > 0 {
                assert(self@.contains_key(self.entries().last().0));
            }
        }
        self.pairs.len() == 0
    }

    /// Where `key` stands among the entries.
    fn position(&self, key: &K) -> (position: Option<usize>)
        ensures
            match position {
                Some(i) => i < self.entries().len() && self.entries()[i as int].0 == key@,
                None => forall|i: int|
                    0 <= i < self.entries().len() ==> (#[trigger] self.entries()[i]).0 != key@,
            },
    {
        let mut i: usize = 0;
        while i < self.pairs.len()
            invariant
                i <= self.pairs.len(),
                forall|j: int| 0 <= j < i ==> (#[trigger] self.entries()[j]).0 != key@,
            decreases self.pairs.len() - i,
        {
            if self.pairs[i].0.same(key) {
                return Some(i);
            }
            i = i + 1;
        }
        None
    }

    /// The value of `key`, if the table has one.
    pub fn get(&self, key: &K) -> (value: Option<&V>)
        ensures
            match value {
                Some(v) => self@.contains_key(key@) && v@ == self@[key@],
                None => !self@.contains_key(key@),
            },
    {
        proof {
            use_type_invariant(self);
            lemma_collect_contains(self.entries(), key@);
        }
        match self.position(key) {
            Some(i) => {
                proof {
                    lemma_collect_value(self.entries(), i as int);
                }
                Some(&self.pairs[i].1)
            },
            None => None,
        }
    }

    /// Whether the table has `key`.
    pub fn contains_key(&self, key: &K) -> (found: bool)
        ensures
            found == self@.contains_key(key@),
    {
        self.get(key).is_some()
    }

    /// The key and the value of the entry at `index`.
    pub fn entry(&self, index: usize) -> (entry: (&K, &V))
        requires
            index < self.entries().len(),
        ensures
            (entry.0@, entry.1@) == self.entries()[index as int],
            self@.contains_key(entry.0@),
            self@[entry.0@] == entry.1@,
    {
        proof {
            use_type_invariant(self);
            lemma_collect_value(self.entries(), index as int);
        }
        (&self.pairs[index].0, &self.pairs[index].1)
    }

    /// Gives `key` the value `value`, in place of the value it had, if any.
    pub fn insert(&mut self, key: K, value: V)
        ensures
            final(self)@ == old(self)@.insert(key@, value@),
            !old(self)@.contains_key(key@) ==> final(self).entries() == old(self).entries().push(
                (key@, value@),
            ),
            forall|i: int|
                0 <= i < old(self).entries().len() && (#[trigger] old(self).entries()[i]).0 == key@
                    ==> final(self).entries() == old(self).entries().update(i, (key@, value@)),
            old(self)@.contains_key(key@) ==> final(self).entries().len() == old(
                self,
            ).entries().len(),
    {
        proof {
            use_type_invariant(&*self);
        }
        let ghost before = self.entries();
        proof {
            lemma_collect_contains(before, key@);
        }
        let position = self.position(&key);
        let mut pairs: Vec<(K, V)> = Vec::new();
        std::mem::swap(&mut pairs, &mut self.pairs);
        match position {
            Some(i) => {
                proof {
                    lemma_collect_update(before, i as int, value@);
                }
                pairs.set(i, (key, value));
                assert(pair_views(pairs@) =~= before.update(i as int, (key@, value@)));
            },
            None => {
                pairs.push((key, value));
                assert(pair_views(pairs@) =~= before.push((key@, value@)));
                assert(pair_views(pairs@).drop_last() =~= before);
            },
        }
        self.pairs = pairs;
    }

    /// Takes `key` and its value out of the table.
    pub fn remove(&mut self, key: &K)
        ensures
            final(self)@ == old(self)@.remove(key@),
            forall|i: int|
                0 <= i < old(self).entries().len() && (#[trigger] old(self).entries()[i]).0 == key@
                    ==> final(self).entries() == old(self).entries().remove(i),
            !old(self)@.contains_key(key@) ==> final(self).entries() == old(self).entries(),
            final(self).entries().len() <= old(self).entries().len(),
    {
        proof {
            use_type_invariant(&*self);
            lemma_collect_contains(self.entries(), key@);
        }
        let ghost before = self.entries();
        match self.position(key) {
            Some(i) => {
                let mut pairs: Vec<(K, V)> = Vec::new();
                std::mem::swap(&mut pairs, &mut self.pairs);
                proof {
                    lemma_collect_remove(before, i as int);
                }
                pairs.remove(i);
                assert(pair_views(pairs@) =~= before.remove(i as int));
                self.pairs = pairs;
            },
            None => {
                assert(self@ =~= self@.remove(key@));
            },
        }
    }
}

impl Table<String, String> {
    /// A table with the same entries.
    pub fn duplicate(&self) -> (table: Self)
        ensures
            table.entries() == self.entries(),
            table@ == self@,
    {
        proof {
            use_type_invariant(self);
        }
        let mut pairs: Vec<(String, String)> = Vec::new();
        let mut i: usize = 0;
        while i < self.pairs.len()
            invariant
                i <= self.pairs.len(),
                pairs.len() == i,
                forall|j: int| 0 <= j < i ==> (#[trigger] pairs@[j]).0@ == self.pairs@[j].0@
                    && pairs@[j].1@ == self.pairs@[j].1@,
            decreases self.pairs.len() - i,
        {
            pairs.push((self.pairs[i].0.clone(), self.pairs[i].1.clone()));
            i = i + 1;
        }
        assert(pair_views(pairs@) =~= pair_views(self.pairs@));
        Table { pairs }
    }

    /// The table of a list of pairs, the later pairs replacing the earlier.
    pub fn from_pairs(list: &Vec<(String, String)>) -> (table: Self)
        ensures
            table@ == collect(pair_views(list@)),
            table.entries().len() <= list@.len(),
    {
        let mut table: Table<String, String> = Table::new();
        table.extend(list);
        let ghost none = Map::<Seq<char>, Seq<char>>::empty();
        assert(collect(pair_views(list@)) =~= none.union_prefer_right(collect(pair_views(list@))));
        table
    }

    /// Inserts the pairs of a list, from the first to the last.
    pub fn extend(&mut self, list: &Vec<(String, String)>)
        ensures
            final(self)@ == old(self)@.union_prefer_right(collect(pair_views(list@))),
            final(self).entries().len() <= old(self).entries().len() + list@.len(),
    {
        let ghost before = self@;
        let ghost old_len = self.entries().len();
        let mut i: usize = 0;
        assert(before =~= before.union_prefer_right(collect(pair_views(list@.take(0)))));
        while i < list.len()
            invariant
                i <= list.len(),
                self@ == before.union_prefer_right(collect(pair_views(list@.take(i as int)))),
                self.entries().len() <= old_len + i,
            decreases list.len() - i,
        {
            let ghost done = pair_views(list@.take(i as int));
            let ghost next = pair_views(list@.take(i + 1));
            self.insert(list[i].0.clone(), list[i].1.clone());
            assert(next.drop_last() =~= done);
            assert(self@ =~= before.union_prefer_right(collect(next)));
            i = i + 1;
        }
        assert(list@.take(i as int) =~= list@);
    }
}

impl Clone for Table<String, String> {
    fn clone(&self) -> (copy: Self)
        ensures
            copy.entries() == self.entries(),
            copy@ == self@,
    {
        self.duplicate()
    }
}

impl Table<String, String> {
    /// Whether the other table gives every key of this one the same value.
    fn within(&self, other: &Self) -> (within: bool)
        ensures
            within <==> forall|key: Seq<char>| #[trigger]
                self@.contains_key(key) ==> other@.contains_key(key) && other@[key] == self@[key],
    {
        let n: usize = self.len();
        let mut i: usize = 0;
        while i < n
            invariant
                i <= n,
                n == self.entries().len(),
                forall|j: int|
                    0 <= j < i ==> other@.contains_key((#[trigger] self.entries()[j]).0)
                        && other@[self.entries()[j].0] == self@[self.entries()[j].0],
            decreases n - i,
        {
            let (key, value) = self.entry(i);
            match other.get(key) {
                Some(found) => if *found != *value {
                    return false;
                },
                None => return false,
            }
            i = i + 1;
        }
        assert forall|key: Seq<char>| #[trigger]
            self@.contains_key(key) implies other@.contains_key(key) && other@[key]
            == self@[key] by {
            lemma_collect_contains(self.entries(), key);
            let j = choose|j: int|
                0 <= j < self.entries().len() && (#[trigger] self.entries()[j]).0 == key;
            assert(other@.contains_key(self.entries()[j].0));
        }
        true
    }
}

/// Tables are equal when they are the same map, whatever their order.
impl PartialEq for Table<String, String> {
    fn eq(&self, other: &Self) -> (equal: bool) {
        let equal = self.within(other) && other.within(self);
        proof {
            if equal {
                assert(self@ =~= other@);
            }
        }
        equal
    }
}

impl vstd::std_specs::cmp::PartialEqSpecImpl for Table<String, String> {
    open spec fn obeys_eq_spec() -> bool {
        true
    }

    open spec fn eq_spec(&self, other: &Self) -> bool {
        self@ == other@
    }
}

impl Eq for Table<String, String> {

}

/// The view of a list of pairs has the views of each pair, in order.
pub proof fn law_pair_views_are_the_views<K: View, V: View>(pairs: Seq<(K, V)>)
    ensures
        pair_views(pairs).len() == pairs.len(),
        forall|i: int|
            0 <= i < pairs.len() ==> #[trigger] pair_views(pairs)[i] == (pairs[i].0@, pairs[i].1@),
{
}

/// A collected list gives a key the value of the last pair that has the key.
pub proof fn law_last_pair_counts<A, B>(pairs: Seq<(A, B)>, i: int)
    requires
        0 <= i < pairs.len(),
        forall|j: int| i < j < pairs.len() ==> (#[trigger] pairs[j]).0 != pairs[i].0,
    ensures
        collect(pairs).contains_key(pairs[i].0),
        collect(pairs)[pairs[i].0] == pairs[i].1,
    decreases pairs.len(),
{
    if i < pairs.len() - 1 {
        let rest = pairs.drop_last();
        assert(pairs[pairs.len() - 1].0 != pairs[i].0);
        assert forall|j: int| i < j < rest.len() implies (#[trigger] rest[j]).0 != rest[i].0 by {
            assert(rest[j] == pairs[j]);
        }
        law_last_pair_counts(rest, i);
    }
}

/// A collected list maps no key that occurs in none of its pairs.
pub proof fn law_collected_keys_occur<A, B>(pairs: Seq<(A, B)>, key: A) -> (i: int)
    requires
        collect(pairs).contains_key(key),
    ensures
        0 <= i < pairs.len(),
        pairs[i].0 == key,
{
    lemma_collect_contains(pairs, key);
    choose|i: int| 0 <= i < pairs.len() && (#[trigger] pairs[i]).0 == key
}

/// Tables are equal exactly if they give the same keys the same values, in whatever
/// order.
pub proof fn law_equal_tables_are_the_same_maps(
    one: Table<String, String>,
    other: Table<String, String>,
)
    ensures
        one.eq_spec(&other) <==> forall|key: Seq<char>|
            {
                &&& one@.contains_key(key) <==> #[trigger] other@.contains_key(key)
                &&& one@.contains_key(key) ==> one@[key] == other@[key]
            },
{
    if forall|key: Seq<char>|
        {
            &&& one@.contains_key(key) <==> #[trigger] other@.contains_key(key)
            &&& one@.contains_key(key) ==> one@[key] == other@[key]
        } {
        assert(one@ =~= other@);
    }
}

} // verus!
