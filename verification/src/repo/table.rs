//! A keyed table: the in-memory stand-in for one tree of a key-value store.
//! Each key occurs at most once.

use vstd::prelude::*;
use vstd::slice::slice_to_vec;
use crate::alias::Alias;
use crate::bytes::bytes_eq;

verus! {

/// What a table asks of its keys: a test for equal values and a way to copy
/// one.
pub trait Key: View + Sized {
    /// Whether two keys are the same value.
    fn same(&self, other: &Self) -> (r: bool)
        ensures
            r == (self@ == other@),
    ;

    /// An independent copy.
    fn duplicate(&self) -> (r: Self)
        ensures
            r@ == self@,
    ;
}

impl Key for Vec<u8> {
    fn same(&self, other: &Self) -> (r: bool) {
        bytes_eq(self.as_slice(), other.as_slice())
    }

    fn duplicate(&self) -> (r: Self) {
        slice_to_vec(self.as_slice())
    }
}

impl Key for String {
    fn same(&self, other: &Self) -> (r: bool) {
        self.eq(other)
    }

    fn duplicate(&self) -> (r: Self) {
        self.clone()
    }
}

impl Key for Alias {
    fn same(&self, other: &Self) -> (r: bool) {
        Alias::same(self, other)
    }

    fn duplicate(&self) -> (r: Self) {
        Alias::duplicate(self)
    }
}

impl<A: Key, B: Key> Key for (A, B) {
    fn same(&self, other: &Self) -> (r: bool) {
        self.0.same(&other.0) && self.1.same(&other.1)
    }

    fn duplicate(&self) -> (r: Self) {
        (self.0.duplicate(), self.1.duplicate())
    }
}

/// One row of a table.
pub struct Entry<K, V> {
    pub key: K,
    pub value: V,
}

/// No key occurs twice among the rows.
pub open spec fn distinct_keys<K: Key, V: View>(rows: Seq<Entry<K, V>>) -> bool {
    forall|i: int, j: int| 0 <= i < j < rows.len() ==> rows[i].key@ != rows[j].key@
}

/// The map that a sequence of rows stands for; a later row wins.
pub open spec fn rows_map<K: Key, V: View>(rows: Seq<Entry<K, V>>) -> Map<K::V, V::V>
    decreases rows.len(),
{
    if rows.len() == 0 {
        Map::empty()
    } else {
        rows_map(rows.drop_last()).insert(rows.last().key@, rows.last().value@)
    }
}

/// A key is in the map exactly when some row holds it.
pub proof fn lemma_rows_map_dom<K: Key, V: View>(rows: Seq<Entry<K, V>>, k: K::V)
    ensures
        rows_map(rows).contains_key(k) <==> exists|i: int|
            0 <= i < rows.len() && #[trigger] rows[i].key@ == k,
    decreases rows.len(),
{
    if rows.len() > 0 {
        let front = rows.drop_last();
        lemma_rows_map_dom(front, k);
        if rows_map(rows).contains_key(k) {
            if rows.last().key@ == k {
                assert(rows[rows.len() - 1].key@ == k);
            } else {
                let i = choose|i: int| 0 <= i < front.len() && #[trigger] front[i].key@ == k;
                assert(rows[i].key@ == k);
            }
        }
        if exists|i: int| 0 <= i < rows.len() && #[trigger] rows[i].key@ == k {
            let i = choose|i: int| 0 <= i < rows.len() && #[trigger] rows[i].key@ == k;
            if i < rows.len() - 1 {
                assert(front[i].key@ == k);
            }
        }
    }
}

/// With distinct keys, the map gives each row's value at its key.
pub proof fn lemma_rows_map_at<K: Key, V: View>(rows: Seq<Entry<K, V>>, i: int)
    requires
        distinct_keys(rows),
        0 <= i < rows.len(),
    ensures
        rows_map(rows).contains_key(rows[i].key@),
        rows_map(rows)[rows[i].key@] == rows[i].value@,
    decreases rows.len(),
{
    let front = rows.drop_last();
    if i < rows.len() - 1 {
        assert(distinct_keys(front)) by {
            assert forall|a: int, b: int| 0 <= a < b < front.len() implies front[a].key@
                != front[b].key@ by {
                assert(rows[a].key@ != rows[b].key@);
            }
        }
        lemma_rows_map_at(front, i);
        assert(front[i] == rows[i]);
        assert(rows[i].key@ != rows[rows.len() - 1].key@);
    }
}

/// Dropping one row of a table with distinct keys removes its key from the
/// map and nothing else.
pub proof fn lemma_rows_map_remove<K: Key, V: View>(rows: Seq<Entry<K, V>>, i: int)
    requires
        distinct_keys(rows),
        0 <= i < rows.len(),
    ensures
        distinct_keys(rows.remove(i)),
        rows_map(rows.remove(i)) == rows_map(rows).remove(rows[i].key@),
    decreases rows.len(),
{
    let rest = rows.remove(i);
    assert(distinct_keys(rest)) by {
        assert forall|a: int, b: int| 0 <= a < b < rest.len() implies rest[a].key@
            != rest[b].key@ by {
            let a0 = if a < i { a } else { a + 1 };
            let b0 = if b < i { b } else { b + 1 };
            assert(rest[a] == rows[a0]);
            assert(rest[b] == rows[b0]);
            assert(rows[a0].key@ != rows[b0].key@);
        }
    }
    let front = rows.drop_last();
    if i == rows.len() - 1 {
        assert(rest =~= front);
        lemma_rows_map_dom(front, rows[i].key@);
        if rows_map(front).contains_key(rows[i].key@) {
            let j = choose|j: int| 0 <= j < front.len() && #[trigger] front[j].key@ == rows[i].key@;
            assert(rows[j].key@ == rows[i].key@);
        }
        assert(rows_map(rest) =~= rows_map(rows).remove(rows[i].key@));
    } else {
        assert(distinct_keys(front)) by {
            assert forall|a: int, b: int| 0 <= a < b < front.len() implies front[a].key@
                != front[b].key@ by {
                assert(rows[a].key@ != rows[b].key@);
            }
        }
        lemma_rows_map_remove(front, i);
        assert(rest.drop_last() =~= front.remove(i));
        assert(rest.last() == rows.last());
        assert(front[i] == rows[i]);
        assert(rows[i].key@ != rows[rows.len() - 1].key@);
        assert(rows_map(rest) =~= rows_map(rows).remove(rows[i].key@));
    }
}

/// A table from keys to values in which each key occurs at most once.
pub struct Table<K: Key, V: View> {
    rows: Vec<Entry<K, V>>,
}

impl<K: Key, V: View> View for Table<K, V> {
    type V = Map<K::V, V::V>;

    closed spec fn view(&self) -> Map<K::V, V::V> {
        rows_map(self.rows@)
    }
}

impl<K: Key, V: View> Table<K, V> {
    #[verifier::type_invariant]
    spec fn inv(&self) -> bool {
        distinct_keys(self.rows@)
    }

    /// The keys in the order in which the rows stand.
    pub closed spec fn key_order(&self) -> Seq<K::V> {
        Seq::new(self.rows@.len(), |i: int| self.rows@[i].key@)
    }

    /// The key order lists each key of the table once.
    proof fn lemma_key_order(&self)
        requires
            self.inv(),
        ensures
            self.key_order().no_duplicates(),
            forall|k: K::V| self@.contains_key(k) <==> self.key_order().contains(k),
    {
        let order = self.key_order();
        assert forall|k: K::V| self@.contains_key(k) <==> order.contains(k) by {
            lemma_rows_map_dom(self.rows@, k);
            if order.contains(k) {
                let i = choose|i: int| 0 <= i < order.len() && order[i] == k;
                assert(self.rows@[i].key@ == k);
            }
            if self@.contains_key(k) {
                let i = choose|i: int| 0 <= i < self.rows@.len() && #[trigger] self.rows@[i].key@ == k;
                assert(order[i] == k);
            }
        }
        assert(order.no_duplicates()) by {
            assert forall|i: int, j: int|
                0 <= i < order.len() && 0 <= j < order.len() && i != j implies order[i]
                != order[j] by {
                if i < j {
                    assert(self.rows@[i].key@ != self.rows@[j].key@);
                } else {
                    assert(self.rows@[j].key@ != self.rows@[i].key@);
                }
            }
        }
    }

    /// An empty table.
    pub fn new() -> (r: Self)
        ensures
            r@ == Map::<K::V, V::V>::empty(),
            r.key_order() == Seq::<K::V>::empty(),
    {
        let r = Table { rows: Vec::new() };
        assert(r.key_order() =~= Seq::<K::V>::empty());
        r
    }

    /// The row that holds `key`, if any.
    fn find(&self, key: &K) -> (r: Option<usize>)
        ensures
            match r {
                Some(i) => i < self.rows@.len() && self.rows@[i as int].key@ == key@,
                None => forall|i: int| 0 <= i < self.rows@.len() ==> self.rows@[i].key@ != key@,
            },
            r is Some <==> self@.contains_key(key@),
    {
        let mut i: usize = 0;
        while i < self.rows.len()
            invariant
                i <= self.rows@.len(),
                forall|j: int| 0 <= j < i ==> self.rows@[j].key@ != key@,
            decreases self.rows@.len() - i,
        {
            if self.rows[i].key.same(key) {
                proof {
                    lemma_rows_map_dom(self.rows@, key@);
                    assert(self.rows@[i as int].key@ == key@);
                }
                return Some(i);
            }
            i += 1;
        }
        proof {
            lemma_rows_map_dom(self.rows@, key@);
        }
        None
    }

    /// Whether `key` is present.
    pub fn contains_key(&self, key: &K) -> (r: bool)
        ensures
            r == self@.contains_key(key@),
    {
        self.find(key).is_some()
    }

    /// The value stored under `key`.
    pub fn get(&self, key: &K) -> (r: Option<&V>)
        ensures
            match r {
                Some(v) => self@.contains_key(key@) && self@[key@] == v@,
                None => !self@.contains_key(key@),
            },
    {
        match self.find(key) {
            Some(i) => {
                proof {
                    use_type_invariant(self);
                    lemma_rows_map_at(self.rows@, i as int);
                }
                Some(&self.rows[i].value)
            },
            None => None,
        }
    }

    /// Stores `value` under `key`, and hands back what was stored before.
    pub fn insert(&mut self, key: K, value: V) -> (r: Option<V>)
        ensures
            final(self)@ == old(self)@.insert(key@, value@),
            match r {
                Some(v) => old(self)@.contains_key(key@) && old(self)@[key@] == v@,
                None => !old(self)@.contains_key(key@),
            },
            !old(self)@.contains_key(key@) ==> final(self).key_order() == old(self).key_order().push(
                key@,
            ),
    {
        proof {
            use_type_invariant(&*self);
        }
        let found = self.find(&key);
        let ghost before = self.rows@;
        let ghost k = key@;
        let ghost v = value@;
        let mut rows: Vec<Entry<K, V>> = Vec::new();
        core::mem::swap(&mut self.rows, &mut rows);
        let previous = match found {
            Some(i) => {
                proof {
                    lemma_rows_map_at(before, i as int);
                    lemma_rows_map_remove(before, i as int);
                }
                Some(rows.remove(i).value)
            },
            None => None,
        };
        let ghost middle = rows@;
        rows.push(Entry { key, value });
        proof {
            let after = rows@;
            assert(after.drop_last() =~= middle);
            assert(rows_map(after) == rows_map(middle).insert(k, v));
            assert(rows_map(after) =~= rows_map(before).insert(k, v));
            assert(distinct_keys(after)) by {
                assert forall|a: int, b: int| 0 <= a < b < after.len() implies after[a].key@
                    != after[b].key@ by {
                    if b < after.len() - 1 {
                        assert(middle[a].key@ != middle[b].key@);
                    } else {
                        lemma_rows_map_dom(middle, k);
                        assert(after[a] == middle[a]);
                    }
                }
            }
        }
        core::mem::swap(&mut self.rows, &mut rows);
        proof {
            if found is None {
                assert(self.key_order() =~= old(self).key_order().push(k));
            }
        }
        previous
    }

    /// Stores `value` under `key` only where the key is new. Says whether it
    /// did; a table that holds the key already is left as it was.
    pub fn insert_new(&mut self, key: K, value: V) -> (r: bool)
        ensures
            r == !old(self)@.contains_key(key@),
            r ==> final(self)@ == old(self)@.insert(key@, value@),
            r ==> final(self).key_order() == old(self).key_order().push(key@),
            !r ==> final(self)@ == old(self)@ && final(self).key_order() == old(self).key_order(),
    {
        if self.contains_key(&key) {
            false
        } else {
            self.insert(key, value);
            true
        }
    }

    /// Removes `key`, and hands back what was stored under it.
    pub fn remove(&mut self, key: &K) -> (r: Option<V>)
        ensures
            final(self)@ == old(self)@.remove(key@),
            match r {
                Some(v) => old(self)@.contains_key(key@) && old(self)@[key@] == v@,
                None => !old(self)@.contains_key(key@),
            },
            r is None ==> final(self).key_order() == old(self).key_order(),
    {
        proof {
            use_type_invariant(&*self);
        }
        match self.find(key) {
            Some(i) => {
                proof {
                    lemma_rows_map_at(self.rows@, i as int);
                    lemma_rows_map_remove(self.rows@, i as int);
                }
                let mut rows: Vec<Entry<K, V>> = Vec::new();
                core::mem::swap(&mut self.rows, &mut rows);
                let row = rows.remove(i);
                core::mem::swap(&mut self.rows, &mut rows);
                Some(row.value)
            },
            None => {
                assert(self@ =~= old(self)@.remove(key@));
                None
            },
        }
    }

    /// A copy of every key, in row order.
    pub fn keys(&self) -> (r: Vec<K>)
        ensures
            r@.len() == self.key_order().len(),
            forall|i: int| 0 <= i < r@.len() ==> #[trigger] r@[i]@ == self.key_order()[i],
            self.key_order().no_duplicates(),
            forall|k: K::V| self@.contains_key(k) <==> self.key_order().contains(k),
    {
        proof {
            use_type_invariant(self);
            self.lemma_key_order();
        }
        let mut out: Vec<K> = Vec::new();
        let mut i: usize = 0;
        while i < self.rows.len()
            invariant
                i <= self.rows@.len(),
                out@.len() == i,
                forall|j: int| 0 <= j < i ==> #[trigger] out@[j]@ == self.rows@[j].key@,
            decreases self.rows@.len() - i,
        {
            out.push(self.rows[i].key.duplicate());
            i += 1;
        }
        out
    }
}

/// The keys with the given first component.
pub open spec fn keys_under<A, B>(first: A) -> Set<(A, B)> {
    Set::new(|k: (A, B)| k.0 == first)
}

impl<A: Key, B: Key, V: View> Table<(A, B), V> {
    /// The second components of the keys whose first component is `first`,
    /// each once.
    pub fn seconds_of(&self, first: &A) -> (r: Vec<B>)
        ensures
            forall|i: int, j: int| 0 <= i < j < r@.len() ==> r@[i]@ != r@[j]@,
            forall|b: B::V|
                self@.contains_key((first@, b)) <==> exists|i: int|
                    0 <= i < r@.len() && #[trigger] r@[i]@ == b,
    {
        proof {
            use_type_invariant(self);
        }
        let mut out: Vec<B> = Vec::new();
        let ghost mut at: Seq<int> = Seq::empty();
        let mut i: usize = 0;
        while i < self.rows.len()
            invariant
                distinct_keys(self.rows@),
                i <= self.rows@.len(),
                at.len() == out@.len(),
                forall|j: int|
                    0 <= j < at.len() ==> 0 <= #[trigger] at[j] < i && self.rows@[at[j]].key@ == (
                        first@,
                        out@[j]@,
                    ),
                forall|a: int, b: int| 0 <= a < b < at.len() ==> at[a] < at[b],
                forall|r: int|
                    0 <= r < i && (#[trigger] self.rows@[r]).key@.0 == first@ ==> exists|j: int|
                        0 <= j < at.len() && at[j] == r,
            decreases self.rows@.len() - i,
        {
            if self.rows[i].key.0.same(first) {
                out.push(self.rows[i].key.1.duplicate());
                proof {
                    let ghost before = at;
                    at = at.push(i as int);
                    assert forall|r: int|
                        0 <= r < i + 1 && (#[trigger] self.rows@[r]).key@.0
                            == first@ implies exists|j: int| 0 <= j < at.len() && at[j] == r by {
                        if r < i {
                            let j = choose|j: int| 0 <= j < before.len() && before[j] == r;
                            assert(at[j] == r);
                        } else {
                            assert(at[before.len() as int] == r);
                        }
                    }
                }
            }
            i += 1;
        }
        proof {
            assert forall|a: int, b: int| 0 <= a < b < out@.len() implies out@[a]@ != out@[b]@ by {
                assert(at[a] < at[b]);
                assert(self.rows@[at[a]].key@ != self.rows@[at[b]].key@);
            }
            assert forall|b: B::V|
                self@.contains_key((first@, b)) <==> exists|i: int|
                    0 <= i < out@.len() && #[trigger] out@[i]@ == b by {
                lemma_rows_map_dom(self.rows@, (first@, b));
                if self@.contains_key((first@, b)) {
                    let r = choose|r: int|
                        0 <= r < self.rows@.len() && #[trigger] self.rows@[r].key@ == (first@, b);
                    assert(self.rows@[r].key@.0 == first@);
                    let j = choose|j: int| 0 <= j < at.len() && at[j] == r;
                    assert(out@[j]@ == b);
                }
                if exists|i: int| 0 <= i < out@.len() && #[trigger] out@[i]@ == b {
                    let j = choose|j: int| 0 <= j < out@.len() && #[trigger] out@[j]@ == b;
                    assert(self.rows@[at[j]].key@ == (first@, b));
                }
            }
        }
        out
    }

    /// Removes every key whose first component is `first`.
    pub fn remove_under(&mut self, first: &A)
        ensures
            final(self)@ == old(self)@.remove_keys(keys_under(first@)),
    {
        let doomed = self.seconds_of(first);
        let mut i: usize = 0;
        while i < doomed.len()
            invariant
                i <= doomed@.len(),
                forall|b: B::V|
                    old(self)@.contains_key((first@, b)) <==> exists|j: int|
                        0 <= j < doomed@.len() && #[trigger] doomed@[j]@ == b,
                forall|k: (A::V, B::V)|
                    self@.contains_key(k) <==> old(self)@.contains_key(k) && !(k.0 == first@
                        && exists|j: int| 0 <= j < i && #[trigger] doomed@[j]@ == k.1),
                forall|k: (A::V, B::V)| self@.contains_key(k) ==> self@[k] == old(self)@[k],
            decreases doomed@.len() - i,
        {
            let key = (first.duplicate(), doomed[i].duplicate());
            let ghost before = self@;
            self.remove(&key);
            proof {
                assert forall|k: (A::V, B::V)|
                    self@.contains_key(k) <==> old(self)@.contains_key(k) && !(k.0 == first@
                        && exists|j: int| 0 <= j < i + 1 && #[trigger] doomed@[j]@ == k.1) by {
                    if k == key@ {
                        assert(doomed@[i as int]@ == k.1);
                    } else {
                        assert(self@.contains_key(k) == before.contains_key(k));
                        if k.0 == first@ && exists|j: int|
                            0 <= j < i + 1 && #[trigger] doomed@[j]@ == k.1 {
                            let j = choose|j: int| 0 <= j < i + 1 && #[trigger] doomed@[j]@ == k.1;
                            assert(j < i);
                        }
                    }
                }
            }
            i += 1;
        }
        proof {
            let goal = old(self)@.remove_keys(keys_under(first@));
            assert forall|k: (A::V, B::V)| self@.contains_key(k) <==> goal.contains_key(k) by {
                if old(self)@.contains_key(k) && k.0 == first@ {
                    let j = choose|j: int| 0 <= j < doomed@.len() && #[trigger] doomed@[j]@ == k.1;
                    assert(doomed@[j]@ == k.1);
                }
            }
            assert(self@ =~= goal);
        }
    }
}

} // verus!
