//! A map from text to values that is walked in the order of its keys.
use vstd::prelude::*;

use crate::order;
use crate::text;
use crate::text::same;

verus! {

/// A map keyed by strings. Its keys are kept in ascending order, without repetition.
pub struct Table<V> {
    rows: Vec<(String, V)>,
}

/// The keys of a list of rows.
pub open spec fn keys_of<V>(rows: Seq<(String, V)>) -> Seq<Seq<char>> {
    rows.map_values(|r: (String, V)| r.0@)
}

impl<V> View for Table<V> {
    type V = Map<Seq<char>, V>;

    closed spec fn view(&self) -> Map<Seq<char>, V> {
        Map::new(
            |k: Seq<char>| keys_of(self.rows@).contains(k),
            |k: Seq<char>| self.rows@[keys_of(self.rows@).index_of(k)].1,
        )
    }
}

impl<V> Table<V> {
    #[verifier::type_invariant]
    spec fn in_key_order(self) -> bool {
        order::ascending(keys_of(self.rows@))
    }

    /// The keys in ascending order.
    pub closed spec fn keys(self) -> Seq<Seq<char>> {
        keys_of(self.rows@)
    }

    /// Whether the keys are in ascending order and are those of the map: true of every table.
    pub open spec fn well_formed(self) -> bool {
        &&& order::ascending(self.keys())
        &&& forall|k: Seq<char>| #[trigger] self@.dom().contains(k) <==> self.keys().contains(k)
    }

    proof fn lemma_well_formed(self)
        requires
            self.in_key_order(),
        ensures
            self.well_formed(),
            forall|i: int|
                0 <= i < self.rows@.len() ==> self@.dom().contains((#[trigger] self.rows@[i]).0@)
                    && self@[self.rows@[i].0@] == self.rows@[i].1,
    {
        let keys = keys_of(self.rows@);
        assert forall|i: int| 0 <= i < self.rows@.len() implies self@.dom().contains(
            (#[trigger] self.rows@[i]).0@,
        ) && self@[self.rows@[i].0@] == self.rows@[i].1 by {
            let k = self.rows@[i].0@;
            assert(keys[i] == k);
            assert(keys.contains(k));
            let j = keys.index_of(k);
            assert(keys[j] == k);
            if i < j {
                assert(order::before(keys[i], keys[j]));
                order::before_irreflexive(k);
            } else if j < i {
                assert(order::before(keys[j], keys[i]));
                order::before_irreflexive(k);
            }
        }
    }

    /// A table without rows.
    pub fn new() -> (r: Table<V>)
        ensures
            r@ == Map::<Seq<char>, V>::empty(),
            r.keys() == Seq::<Seq<char>>::empty(),
            r.well_formed(),
    {
        let r = Table { rows: Vec::new() };
        proof {
            assert(keys_of(r.rows@) =~= Seq::empty());
            assert(r@ =~= Map::empty());
            r.lemma_well_formed();
        }
        r
    }

    /// The number of rows.
    pub fn len(&self) -> (r: usize)
        ensures
            r == self.keys().len(),
            self.well_formed(),
    {
        proof {
            use_type_invariant(self);
            self.lemma_well_formed();
        }
        self.rows.len()
    }

    /// The key and the value of a row.
    pub fn row(&self, i: usize) -> (r: (&String, &V))
        requires
            i < self.keys().len(),
        ensures
            r.0@ == self.keys()[i as int],
            self@.dom().contains(r.0@),
            self@[r.0@] == *r.1,
    {
        proof {
            use_type_invariant(self);
            self.lemma_well_formed();
        }
        let r = &self.rows[i];
        (&r.0, &r.1)
    }

    /// The position of a key, or the one at which it would be inserted.
    fn seek(&self, key: &str) -> (r: (usize, bool))
        ensures
            r.0 <= self.rows@.len(),
            r.1 ==> r.0 < self.rows@.len() && self.rows@[r.0 as int].0@ == key@,
            !r.1 ==> !self@.dom().contains(key@),
            !r.1 ==> forall|i: int|
                0 <= i < r.0 ==> order::before((#[trigger] self.rows@[i]).0@, key@),
            !r.1 ==> forall|i: int|
                r.0 <= i < self.rows@.len() ==> order::before(key@, (#[trigger] self.rows@[i]).0@),
    {
        proof {
            use_type_invariant(self);
            self.lemma_well_formed();
        }
        let ghost keys = keys_of(self.rows@);
        let mut i: usize = 0;
        while i < self.rows.len() && order::less(self.rows[i].0.as_str(), key)
            invariant
                i <= self.rows@.len(),
                forall|j: int|
                    0 <= j < i ==> order::before((#[trigger] self.rows@[j]).0@, key@),
            decreases self.rows@.len() - i,
        {
            i += 1;
        }
        if i < self.rows.len() && same(self.rows[i].0.as_str(), key) {
            return (i, true);
        }
        proof {
            assert forall|j: int| i <= j < self.rows@.len() implies order::before(
                key@,
                (#[trigger] self.rows@[j]).0@,
            ) by {
                order::before_total(key@, keys[i as int]);
                assert(order::before(key@, keys[i as int]));
                if j > i {
                    assert(order::before(keys[i as int], keys[j]));
                    order::before_transitive(key@, keys[i as int], keys[j]);
                }
            }
            if self@.dom().contains(key@) {
                let j = choose|j: int| 0 <= j < keys.len() && keys[j] == key@;
                assert(self.rows@[j].0@ == key@);
                order::before_irreflexive(key@);
            }
        }
        (i, false)
    }

    /// The value of a key.
    pub fn get(&self, key: &str) -> (r: Option<&V>)
        ensures
            r is Some <==> self@.dom().contains(key@),
            r matches Some(v) ==> *v == self@[key@],
            self.well_formed(),
    {
        proof {
            use_type_invariant(self);
            self.lemma_well_formed();
        }
        let (i, found) = self.seek(key);
        if found {
            Some(&self.rows[i].1)
        } else {
            None
        }
    }

    /// Sets the value of a key, in place of the one it had.
    pub fn insert(&mut self, key: String, value: V)
        ensures
            final(self)@ == old(self)@.insert(key@, value),
            final(self).well_formed(),
    {
        proof {
            use_type_invariant(&*self);
            self.lemma_well_formed();
        }
        let (i, found) = self.seek(key.as_str());
        let ghost before = self.rows@;
        let ghost old_keys = keys_of(before);
        let ghost old_map = self@;
        let ghost k = key@;
        let mut rows: Vec<(String, V)> = Vec::new();
        std::mem::swap(&mut rows, &mut self.rows);
        if found {
            rows.remove(i);
        }
        rows.insert(i, (key, value));
        proof {
            let keys = keys_of(rows@);
            if found {
                assert(keys =~= old_keys);
            } else {
                assert(rows@ =~= before.insert(i as int, (key, value)));
                assert(keys =~= old_keys.insert(i as int, k));
                assert forall|a: int, b: int| 0 <= a < b < keys.len() implies order::before(
                    #[trigger] keys[a],
                    #[trigger] keys[b],
                ) by {
                    let pa = if a < i { a } else { a - 1 };
                    let pb = if b < i { b } else { b - 1 };
                    if a == i {
                        assert(keys[b] == before[pb].0@);
                    } else if b == i {
                        assert(keys[a] == before[pa].0@);
                    } else {
                        assert(keys[a] == old_keys[pa] && keys[b] == old_keys[pb]);
                    }
                }
            }
        }
        self.rows = rows;
        proof {
            self.lemma_well_formed();
            let keys = keys_of(self.rows@);
            let expected = old_map.insert(k, value);
            assert forall|x: Seq<char>| #[trigger] self@.dom().contains(x) <==> expected.dom().contains(
                x,
            ) by {
                if self@.dom().contains(x) && x != k {
                    let a = choose|a: int| 0 <= a < keys.len() && keys[a] == x;
                    let pa = if found || a < i { a } else { a - 1 };
                    assert(old_keys[pa] == x);
                }
                if expected.dom().contains(x) {
                    if x == k {
                        assert(keys[i as int] == k);
                    } else {
                        let a = choose|a: int| 0 <= a < old_keys.len() && old_keys[a] == x;
                        let na = if found || a < i { a } else { a + 1 };
                        assert(keys[na] == x);
                    }
                }
            }
            assert forall|x: Seq<char>| #[trigger] self@.dom().contains(x) implies self@[x]
                == expected[x] by {
                let a = choose|a: int| 0 <= a < keys.len() && keys[a] == x;
                assert(self.rows@[a].0@ == x);
                assert(self@[x] == self.rows@[a].1);
                if x == k {
                    assert(keys[i as int] == k);
                    assert(self.rows@[i as int].1 == value);
                    assert(self@[self.rows@[i as int].0@] == value);
                } else {
                    let pa = if found || a < i { a } else { a - 1 };
                    assert(before[pa].0@ == x && before[pa].1 == self.rows@[a].1);
                }
            }
            assert(self@ =~= expected);
        }
    }
}

/// Two ascending lists of the same strings are the same list.
pub proof fn ascending_is_unique(a: Seq<Seq<char>>, b: Seq<Seq<char>>)
    requires
        order::ascending(a),
        order::ascending(b),
        forall|s: Seq<char>| #[trigger] a.contains(s) <==> b.contains(s),
    ensures
        a == b,
    decreases a.len(),
{
    if a.len() == 0 {
        if b.len() > 0 {
            assert(b.contains(b[0]));
            assert(a.contains(b[0]));
        }
        assert(a =~= b);
    } else {
        assert(a.contains(a.last()));
        assert(b.contains(a.last()));
        let i = choose|i: int| 0 <= i < b.len() && b[i] == a.last();
        assert(b.contains(b.last()));
        assert(a.contains(b.last()));
        let j = choose|j: int| 0 <= j < a.len() && a[j] == b.last();
        if i < b.len() - 1 {
            assert(order::before(b[i], b[b.len() - 1]));
            if j < a.len() - 1 {
                assert(order::before(a[j], a[a.len() - 1]));
                order::before_transitive(a.last(), b.last(), a.last());
            }
            order::before_irreflexive(a.last());
        }
        assert(a.last() == b.last());
        let x = a.drop_last();
        let y = b.drop_last();
        assert forall|s: Seq<char>| #[trigger] x.contains(s) <==> y.contains(s) by {
            if x.contains(s) {
                let k = choose|k: int| 0 <= k < x.len() && x[k] == s;
                assert(a[k] == s);
                assert(a.contains(s));
                assert(b.contains(s));
                let m = choose|m: int| 0 <= m < b.len() && b[m] == s;
                if m == b.len() - 1 {
                    assert(order::before(a[k], a[a.len() - 1]));
                    order::before_irreflexive(s);
                }
                assert(y[m] == s);
            }
            if y.contains(s) {
                let k = choose|k: int| 0 <= k < y.len() && y[k] == s;
                assert(b[k] == s);
                assert(b.contains(s));
                assert(a.contains(s));
                let m = choose|m: int| 0 <= m < a.len() && a[m] == s;
                if m == a.len() - 1 {
                    assert(order::before(b[k], b[b.len() - 1]));
                    order::before_irreflexive(s);
                }
                assert(x[m] == s);
            }
        }
        ascending_is_unique(x, y);
        assert(a =~= x.push(a.last()));
        assert(b =~= y.push(b.last()));
    }
}

} // verus!
