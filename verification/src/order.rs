//! The order of strings, and lists sorted by it.
use vstd::prelude::*;

use crate::text;
use crate::text::chars_of;

verus! {

/// Whether `a` comes before `b` in the order of strings: by the first character in which
/// they differ, and a string before those that continue it.
pub open spec fn before(a: Seq<char>, b: Seq<char>) -> bool
    decreases a.len(),
{
    if b.len() == 0 {
        false
    } else if a.len() == 0 {
        true
    } else if a[0] != b[0] {
        a[0] < b[0]
    } else {
        before(a.drop_first(), b.drop_first())
    }
}

/// No string comes before itself.
pub proof fn before_irreflexive(a: Seq<char>)
    ensures
        !before(a, a),
    decreases a.len(),
{
    if a.len() > 0 {
        before_irreflexive(a.drop_first());
    }
}

/// The order is transitive.
pub proof fn before_transitive(a: Seq<char>, b: Seq<char>, c: Seq<char>)
    requires
        before(a, b),
        before(b, c),
    ensures
        before(a, c),
    decreases a.len(),
{
    if a.len() > 0 && b.len() > 0 && c.len() > 0 && a[0] == b[0] && b[0] == c[0] {
        before_transitive(a.drop_first(), b.drop_first(), c.drop_first());
    }
}

/// Of two different strings one comes before the other, and only one does.
pub proof fn before_total(a: Seq<char>, b: Seq<char>)
    ensures
        a == b || before(a, b) || before(b, a),
        !(before(a, b) && before(b, a)),
    decreases a.len(),
{
    if a.len() > 0 && b.len() > 0 && a[0] == b[0] {
        before_total(a.drop_first(), b.drop_first());
        if a.drop_first() == b.drop_first() {
            assert(a =~= seq![a[0]] + a.drop_first());
            assert(b =~= seq![b[0]] + b.drop_first());
        }
    } else if a.len() == 0 && b.len() == 0 {
        assert(a =~= b);
    }
}

/// Whether `a` comes before `b`.
pub fn less(a: &str, b: &str) -> (r: bool)
    ensures
        r == before(a@, b@),
{
    let x = chars_of(a);
    let y = chars_of(b);
    let mut i: usize = 0;
    assert(x@.skip(0) =~= x@);
    assert(y@.skip(0) =~= y@);
    while i < x.len() && i < y.len()
        invariant
            i <= x@.len(),
            i <= y@.len(),
            before(a@, b@) == before(x@.skip(i as int), y@.skip(i as int)),
        decreases x@.len() - i,
    {
        if x[i] != y[i] {
            return x[i] < y[i];
        }
        assert(x@.skip(i as int).drop_first() =~= x@.skip(i + 1));
        assert(y@.skip(i as int).drop_first() =~= y@.skip(i + 1));
        i += 1;
    }
    i < y.len()
}

/// Whether no string of the list comes before one that stands ahead of it.
pub open spec fn sorted(v: Seq<Seq<char>>) -> bool {
    forall|i: int, j: int| 0 <= i < j < v.len() ==> !before(#[trigger] v[j], #[trigger] v[i])
}

/// Whether each string of the list comes before all that stand behind it.
pub open spec fn ascending(v: Seq<Seq<char>>) -> bool {
    forall|i: int, j: int| 0 <= i < j < v.len() ==> before(#[trigger] v[i], #[trigger] v[j])
}

/// Adds a string to a list: ahead of the first one that it comes before.
pub open spec fn placed(v: Seq<Seq<char>>, s: Seq<char>) -> Seq<Seq<char>>
    decreases v.len(),
{
    if v.len() > 0 && before(s, v.last()) {
        placed(v.drop_last(), s).push(v.last())
    } else {
        v.push(s)
    }
}

/// The list in ascending order.
pub open spec fn in_order(v: Seq<Seq<char>>) -> Seq<Seq<char>>
    decreases v.len(),
{
    if v.len() == 0 {
        v
    } else {
        placed(in_order(v.drop_last()), v.last())
    }
}

proof fn lemma_placed(v: Seq<Seq<char>>, s: Seq<char>)
    requires
        sorted(v),
    ensures
        sorted(placed(v, s)),
        placed(v, s).to_multiset() == v.to_multiset().insert(s),
        placed(v, s).len() == v.len() + 1,
        forall|i: int|
            0 <= i < placed(v, s).len() ==> (#[trigger] placed(v, s)[i] == s || v.contains(
                placed(v, s)[i],
            )),
    decreases v.len(),
{
    broadcast use vstd::seq_lib::group_to_multiset_ensures;

    if v.len() > 0 && before(s, v.last()) {
        let rest = v.drop_last();
        lemma_placed(rest, s);
        let p = placed(rest, s);
        let all = placed(v, s);
        assert(v =~= rest.push(v.last()));
        assert(all.to_multiset() =~= v.to_multiset().insert(s));
        assert forall|i: int, j: int| 0 <= i < j < all.len() implies !before(
            #[trigger] all[j],
            #[trigger] all[i],
        ) by {
            if j < p.len() {
                assert(all[j] == p[j] && all[i] == p[i]);
            } else {
                assert(all[i] == p[i]);
                if p[i] == s {
                    before_total(s, v.last());
                } else {
                    let k = choose|k: int| 0 <= k < rest.len() && rest[k] == p[i];
                    assert(v[k] == p[i]);
                }
            }
        }
        assert forall|i: int| 0 <= i < all.len() implies (#[trigger] all[i] == s || v.contains(
            all[i],
        )) by {
            if i < p.len() {
                assert(all[i] == p[i]);
                if p[i] != s {
                    let k = choose|k: int| 0 <= k < rest.len() && rest[k] == p[i];
                    assert(v[k] == p[i]);
                }
            } else {
                assert(v[v.len() - 1] == all[i]);
            }
        }
    } else {
        let all = v.push(s);
        assert forall|i: int, j: int| 0 <= i < j < all.len() implies !before(
            #[trigger] all[j],
            #[trigger] all[i],
        ) by {
            if j == v.len() && i < v.len() - 1 {
                let last = v.last();
                assert(!before(last, v[i]));
                assert(!before(s, last));
                if before(s, v[i]) {
                    before_total(v[i], last);
                    if v[i] != last {
                        before_transitive(s, v[i], last);
                    }
                }
            }
        }
    }
}

/// Putting a list in order sorts it and keeps every string as often as it was there.
pub proof fn in_order_sorts(v: Seq<Seq<char>>)
    ensures
        sorted(in_order(v)),
        in_order(v).to_multiset() == v.to_multiset(),
        in_order(v).len() == v.len(),
        forall|s: Seq<char>| #[trigger] in_order(v).contains(s) <==> v.contains(s),
    decreases v.len(),
{
    broadcast use vstd::seq_lib::group_to_multiset_ensures;

    if v.len() > 0 {
        in_order_sorts(v.drop_last());
        lemma_placed(in_order(v.drop_last()), v.last());
        assert(v =~= v.drop_last().push(v.last()));
        assert(in_order(v).to_multiset() =~= v.to_multiset());
    }
    assert forall|s: Seq<char>| #[trigger] in_order(v).contains(s) <==> v.contains(s) by {
        assert(in_order(v).contains(s) <==> in_order(v).to_multiset().count(s) > 0);
        assert(v.contains(s) <==> v.to_multiset().count(s) > 0);
    }
}

/// Puts a list of strings in ascending order.
pub fn sort(v: &Vec<String>) -> (r: Vec<String>)
    ensures
        text::texts(r@) == in_order(text::texts(v@)),
{
    let mut r: Vec<String> = Vec::new();
    let mut i: usize = 0;
    while i < v.len()
        invariant
            i <= v@.len(),
            text::texts(r@) == in_order(text::texts(v@).take(i as int)),
        decreases v@.len() - i,
    {
        let item = v[i].clone();
        let ghost old_r = r@;
        let ghost all = text::texts(r@);
        let mut k: usize = r.len();
        assert(all.take(k as int) =~= all);
        assert(placed(all, item@) =~= placed(all, item@) + all.skip(k as int));
        while k > 0 && less(item.as_str(), r[k - 1].as_str())
            invariant
                k <= r@.len(),
                r@ == old_r,
                all == text::texts(r@),
                placed(all, item@) == placed(all.take(k as int), item@) + all.skip(k as int),
            decreases k,
        {
            proof {
                let t = all.take(k as int);
                assert(t.last() == r@[k - 1]@);
                assert(t.drop_last() =~= all.take(k - 1));
                assert(placed(t, item@) + all.skip(k as int) =~= placed(all.take(k - 1), item@)
                    + all.skip(k - 1));
            }
            k -= 1;
        }
        proof {
            let t = all.take(k as int);
            if k > 0 {
                assert(t.last() == r@[k - 1]@);
            }
            assert(placed(t, item@) == t.push(item@));
        }
        let ghost view = item@;
        r.insert(k, item);
        proof {
            assert(text::texts(r@) =~= all.take(k as int).push(view) + all.skip(k as int));
            let t = text::texts(v@);
            assert(t.take(i + 1).drop_last() =~= t.take(i as int));
            assert(t.take(i + 1).last() == v@[i as int]@);
        }
        i += 1;
    }
    assert(text::texts(v@).take(i as int) =~= text::texts(v@));
    r
}

/// The list with each run of equal strings reduced to one.
pub open spec fn deduped(v: Seq<Seq<char>>) -> Seq<Seq<char>>
    decreases v.len(),
{
    if v.len() == 0 {
        v
    } else {
        let rest = deduped(v.drop_last());
        if v.len() > 1 && v.last() == v[v.len() - 2] {
            rest
        } else {
            rest.push(v.last())
        }
    }
}

/// Reduces each run of equal strings to one.
pub fn dedup(v: &Vec<String>) -> (r: Vec<String>)
    ensures
        text::texts(r@) == deduped(text::texts(v@)),
{
    let mut r: Vec<String> = Vec::new();
    let mut i: usize = 0;
    while i < v.len()
        invariant
            i <= v@.len(),
            text::texts(r@) == deduped(text::texts(v@).take(i as int)),
        decreases v@.len() - i,
    {
        proof {
            let t = text::texts(v@);
            assert(t.take(i + 1).drop_last() =~= t.take(i as int));
            assert(t.take(i + 1).last() == v@[i as int]@);
            if i > 0 {
                assert(t.take(i + 1)[i - 1] == v@[i - 1]@);
            }
        }
        if i == 0 || !text::same(v[i].as_str(), v[i - 1].as_str()) {
            let ghost all = text::texts(r@);
            r.push(v[i].clone());
            assert(text::texts(r@) =~= all.push(v@[i as int]@));
        }
        i += 1;
    }
    assert(text::texts(v@).take(i as int) =~= text::texts(v@));
    r
}

/// A sorted list without its repetitions is strictly ascending and holds the same strings.
pub proof fn dedup_of_sorted(v: Seq<Seq<char>>)
    requires
        sorted(v),
    ensures
        ascending(deduped(v)),
        forall|s: Seq<char>| #[trigger] deduped(v).contains(s) <==> v.contains(s),
        v.len() > 0 ==> deduped(v).len() > 0 && deduped(v).last() == v.last(),
    decreases v.len(),
{
    if v.len() > 0 {
        let w = v.drop_last();
        dedup_of_sorted(w);
        let rest = deduped(w);
        let all = deduped(v);
        let repeated = v.len() > 1 && v.last() == v[v.len() - 2];
        if !repeated {
            assert forall|i: int, j: int| 0 <= i < j < all.len() implies before(
                #[trigger] all[i],
                #[trigger] all[j],
            ) by {
                if j < rest.len() {
                    assert(all[i] == rest[i] && all[j] == rest[j]);
                } else {
                    assert(all[i] == rest[i]);
                    assert(rest.contains(rest[i]));
                    let k = choose|k: int| 0 <= k < w.len() && w[k] == rest[i];
                    assert(v[k] == rest[i]);
                    assert(!before(v[v.len() - 1], v[k]));
                    before_total(v[k], v.last());
                    if v[k] == v.last() {
                        let m = v.len() - 2;
                        assert(!before(v[m], v[k]));
                        assert(!before(v[v.len() - 1], v[m]));
                        before_total(v[m], v.last());
                        assert(false);
                    }
                }
            }
        }
        assert forall|s: Seq<char>| #[trigger] all.contains(s) <==> v.contains(s) by {
            if all.contains(s) {
                let k = choose|k: int| 0 <= k < all.len() && all[k] == s;
                if repeated || k < rest.len() {
                    assert(rest[k] == s);
                    assert(rest.contains(s));
                    let m = choose|m: int| 0 <= m < w.len() && w[m] == s;
                    assert(v[m] == s);
                } else {
                    assert(v[v.len() - 1] == s);
                }
            }
            if v.contains(s) {
                let k = choose|k: int| 0 <= k < v.len() && v[k] == s;
                if k < w.len() {
                    assert(w[k] == s);
                    assert(w.contains(s));
                    assert(rest.contains(s));
                    let m = choose|m: int| 0 <= m < rest.len() && rest[m] == s;
                    assert(all[m] == s);
                } else if repeated {
                    assert(w[w.len() - 1] == s);
                    assert(w.contains(s));
                    assert(rest.contains(s));
                } else {
                    assert(all[all.len() - 1] == s);
                }
            }
        }
    }
}

// ---------------------------------------------------------------- any order

/// Values that stand in an order.
pub trait Ordered: Sized {
    /// Whether one value has to stand before another.
    spec fn precedes(&self, other: &Self) -> bool;

    /// Tells whether one value has to stand before another.
    fn comes_before(&self, other: &Self) -> (r: bool)
        ensures
            r == self.precedes(other),
    ;
}

/// Some values with one more put in behind all that it does not have to precede.
pub open spec fn put_in<T: Ordered>(v: Seq<T>, x: T) -> Seq<T>
    decreases v.len(),
{
    if v.len() > 0 && x.precedes(&v.last()) {
        put_in(v.drop_last(), x).push(v.last())
    } else {
        v.push(x)
    }
}

/// Some values in their order; those that do not precede each other stay as they were.
pub open spec fn arranged<T: Ordered>(v: Seq<T>) -> Seq<T>
    decreases v.len(),
{
    if v.len() == 0 {
        v
    } else {
        put_in(arranged(v.drop_last()), v.last())
    }
}

fn put_in_place<T: Ordered>(v: &mut Vec<T>, x: T)
    ensures
        final(v)@ == put_in(old(v)@, x),
{
    let ghost all = v@;
    let n: usize = v.len();
    let mut i: usize = n;
    assert(all.take(i as int) =~= all);
    assert(put_in(all.take(i as int), x) + all.skip(i as int) =~= put_in(all, x));
    while i > 0 && x.comes_before(&v[i - 1])
        invariant
            i <= n == all.len(),
            v@ == all,
            put_in(all.take(i as int), x) + all.skip(i as int) == put_in(all, x),
        decreases i,
    {
        assert(all.take(i as int).drop_last() =~= all.take(i - 1));
        assert(put_in(all.take(i - 1), x) + all.skip(i - 1) =~= put_in(all.take(i as int), x)
            + all.skip(i as int));
        i -= 1;
    }
    assert(put_in(all.take(i as int), x) == all.take(i as int).push(x)) by {
        if i > 0 {
            assert(all.take(i as int).last() == all[i - 1]);
        }
    }
    v.insert(i, x);
    assert(v@ =~= all.take(i as int).push(x) + all.skip(i as int));
}

/// Puts values in their order.
pub fn arrange<T: Ordered>(v: Vec<T>) -> (r: Vec<T>)
    ensures
        r@ == arranged(v@),
{
    let ghost all = v@;
    let mut rest = v;
    let mut back: Vec<T> = Vec::new();
    // Taken from the end, so that what comes first is on top.
    while rest.len() > 0
        invariant
            rest@ + back@.reverse() == all,
        decreases rest@.len(),
    {
        let ghost before = rest@ + back@.reverse();
        let ghost had = rest@;
        if let Some(x) = rest.pop() {
            let ghost b = back@;
            back.push(x);
            assert(back@.reverse() =~= seq![x] + b.reverse());
            assert(rest@ + back@.reverse() =~= before);
        }
    }
    assert(back@.reverse() =~= all);
    let mut r: Vec<T> = Vec::new();
    assert(all.take(0) =~= Seq::empty());
    assert(r@ =~= arranged(all.take(0)));
    let ghost mut k: int = 0;
    while back.len() > 0
        invariant
            0 <= k <= all.len(),
            back@.reverse() == all.skip(k),
            r@ == arranged(all.take(k)),
        decreases back@.len(),
    {
        let ghost b = back@;
        assert(back@.reverse().len() == all.len() - k);
        if let Some(x) = back.pop() {
            assert(b.reverse()[0] == x);
            assert(all.skip(k)[0] == x);
            assert(all.take(k + 1).drop_last() =~= all.take(k));
            assert(all.take(k + 1).last() == x);
            put_in_place(&mut r, x);
            assert(back@.reverse() =~= all.skip(k + 1)) by {
                assert(back@ =~= b.drop_last());
                assert forall|j: int| 0 <= j < back@.len() implies back@.reverse()[j] == all.skip(
                    k + 1,
                )[j] by {
                    assert(b.reverse()[j + 1] == all.skip(k)[j + 1]);
                }
            }
            proof {
                k = k + 1;
            }
        }
    }
    assert(back@.reverse().len() == 0);
    assert(all.take(k) =~= all);
    r
}

proof fn lemma_put_in_contents<T: Ordered>(v: Seq<T>, x: T)
    ensures
        put_in(v, x).to_multiset() == v.to_multiset().insert(x),
    decreases v.len(),
{
    broadcast use vstd::seq_lib::group_to_multiset_ensures;

    if v.len() > 0 && x.precedes(&v.last()) {
        lemma_put_in_contents(v.drop_last(), x);
        assert(v.drop_last().push(v.last()) =~= v);
        assert(put_in(v, x).to_multiset() =~= v.to_multiset().insert(x));
    }
}

/// Putting values in order neither adds nor loses one.
pub proof fn arranging_keeps_the_values<T: Ordered>(v: Seq<T>)
    ensures
        arranged(v).to_multiset() == v.to_multiset(),
    decreases v.len(),
{
    broadcast use vstd::seq_lib::group_to_multiset_ensures;

    if v.len() > 0 {
        arranging_keeps_the_values(v.drop_last());
        lemma_put_in_contents(arranged(v.drop_last()), v.last());
        assert(v.drop_last().push(v.last()) =~= v);
    }
}

/// Whether no value has to stand before one that comes earlier.
pub open spec fn in_place<T: Ordered>(v: Seq<T>) -> bool {
    forall|i: int, j: int| 0 <= i < j < v.len() ==> !(#[trigger] v[j]).precedes(#[trigger] &v[i])
}

/// Whether the order is one by which values with some property can be arranged: none precedes
/// itself through another, and what does not precede is passed on.
pub open spec fn is_order<T: Ordered>(p: spec_fn(T) -> bool) -> bool {
    &&& forall|a: T, b: T| p(a) && p(b) && #[trigger] a.precedes(&b) ==> !b.precedes(&a)
    &&& forall|a: T, b: T, c: T|
        p(a) && p(b) && p(c) && !(#[trigger] a.precedes(&b)) && !(#[trigger] b.precedes(&c))
            ==> !a.precedes(&c)
}

/// Whether all of some values have a property.
pub open spec fn all_have<T>(v: Seq<T>, p: spec_fn(T) -> bool) -> bool {
    forall|i: int| 0 <= i < v.len() ==> p(#[trigger] v[i])
}

proof fn lemma_put_in_from<T: Ordered>(v: Seq<T>, x: T, i: int)
    requires
        0 <= i < put_in(v, x).len(),
    ensures
        put_in(v, x).len() == v.len() + 1,
        put_in(v, x)[i] == x || exists|k: int| 0 <= k < v.len() && v[k] == put_in(v, x)[i],
    decreases v.len(),
{
    if v.len() > 0 && x.precedes(&v.last()) {
        let w = v.drop_last();
        if i < put_in(w, x).len() {
            lemma_put_in_from(w, x, i);
            if put_in(w, x)[i] != x {
                let k = choose|k: int| 0 <= k < w.len() && w[k] == put_in(w, x)[i];
                assert(v[k] == put_in(v, x)[i]);
            }
        } else {
            lemma_put_in_from(w, x, 0);
            assert(v[v.len() - 1] == put_in(v, x)[i]);
        }
    } else if i < v.len() {
        assert(v[i] == put_in(v, x)[i]);
    }
}

proof fn lemma_put_in_place<T: Ordered>(v: Seq<T>, x: T, p: spec_fn(T) -> bool)
    requires
        is_order::<T>(p),
        all_have(v, p),
        p(x),
        in_place(v),
    ensures
        in_place(put_in(v, x)),
        all_have(put_in(v, x), p),
    decreases v.len(),
{
    let r = put_in(v, x);
    assert forall|i: int| 0 <= i < r.len() implies p(#[trigger] r[i]) by {
        lemma_put_in_from(v, x, i);
        if r[i] != x {
            let k = choose|k: int| 0 <= k < v.len() && v[k] == r[i];
            assert(p(v[k]));
        }
    }
    if v.len() > 0 && x.precedes(&v.last()) {
        let w = v.drop_last();
        assert(in_place(w)) by {
            assert forall|i: int, j: int| 0 <= i < j < w.len() implies !(#[trigger] w[j]).precedes(
                #[trigger] &w[i],
            ) by {
                assert(!v[j].precedes(&v[i]));
            }
        }
        assert(all_have(w, p)) by {
            assert forall|i: int| 0 <= i < w.len() implies p(#[trigger] w[i]) by {
                assert(p(v[i]));
            }
        }
        lemma_put_in_place(w, x, p);
        let q = put_in(w, x);
        assert(p(v[v.len() - 1]));
        assert forall|i: int, j: int| 0 <= i < j < r.len() implies !(#[trigger] r[j]).precedes(
            #[trigger] &r[i],
        ) by {
            lemma_put_in_from(w, x, i);
            if j < q.len() {
                assert(!q[j].precedes(&q[i]));
            } else {
                assert(r[j] == v.last());
                if q[i] != x {
                    let k = choose|k: int| 0 <= k < w.len() && w[k] == q[i];
                    assert(!v[v.len() - 1].precedes(&v[k]));
                }
            }
        }
    } else {
        assert forall|i: int, j: int| 0 <= i < j < r.len() implies !(#[trigger] r[j]).precedes(
            #[trigger] &r[i],
        ) by {
            if j < v.len() {
                assert(!v[j].precedes(&v[i]));
            } else {
                let l = v.last();
                assert(p(v[v.len() - 1]) && p(v[i]));
                if i < v.len() - 1 {
                    assert(!v[v.len() - 1].precedes(&v[i]));
                    assert(!x.precedes(&l) && !l.precedes(&v[i]));
                }
            }
        }
    }
}

/// Values that were put in order stand in order.
pub proof fn arranging_puts_in_place<T: Ordered>(v: Seq<T>, p: spec_fn(T) -> bool)
    requires
        is_order::<T>(p),
        all_have(v, p),
    ensures
        in_place(arranged(v)),
        all_have(arranged(v), p),
    decreases v.len(),
{
    if v.len() > 0 {
        let w = v.drop_last();
        assert(all_have(w, p)) by {
            assert forall|i: int| 0 <= i < w.len() implies p(#[trigger] w[i]) by {
                assert(p(v[i]));
            }
        }
        assert(p(v[v.len() - 1]));
        arranging_puts_in_place(w, p);
        lemma_put_in_place(arranged(w), v.last(), p);
    }
}

} // verus!
