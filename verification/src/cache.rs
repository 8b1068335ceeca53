//! Bounded least-recently-used cache.
//!
//! [`LRUCache`] maps string keys to values and keeps at most `capacity`
//! entries.  Both lookups and insertions move the touched key to the
//! most-recently-used end of the internal order; an insertion of a new
//! key into a full cache first evicts the least-recently-used entry.
//!
//! The cache is modelled as a sequence of key/value pairs ordered from
//! least- to most-recently used ([`LRUCache::model`]); the pure
//! transition functions [`key_index`], [`touched`] and [`put_model`]
//! describe every operation exactly, and the eviction laws at the end
//! of this module are proved over them.

use vstd::prelude::*;

verus! {

/// Index of the first entry of `m` whose key is `k`, or `-1` if no
/// entry has that key.
pub open spec fn key_index<V>(m: Seq<(Seq<char>, V)>, k: Seq<char>) -> int
    decreases m.len(),
{
    if m.len() == 0 {
        -1
    } else if m[0].0 == k {
        0
    } else {
        let r = key_index(m.drop_first(), k);
        if r < 0 {
            -1
        } else {
            r + 1
        }
    }
}

/// Whether some entry of `m` has key `k`.
pub open spec fn has_key<V>(m: Seq<(Seq<char>, V)>, k: Seq<char>) -> bool {
    key_index(m, k) >= 0
}

/// The order after a lookup of `k`: a present key moves to the
/// most-recently-used end, an absent key changes nothing.
pub open spec fn touched<V>(m: Seq<(Seq<char>, V)>, k: Seq<char>) -> Seq<(Seq<char>, V)> {
    let i = key_index(m, k);
    if i < 0 {
        m
    } else {
        m.remove(i).push(m[i])
    }
}

/// The contents after an insertion of `(k, v)` into a cache of capacity
/// `cap`: a present key is re-bound and moves to the most-recently-used
/// end; a new key is appended, after evicting the least-recently-used
/// entry when the cache is full.  A cache of capacity zero stores
/// nothing.
pub open spec fn put_model<V>(m: Seq<(Seq<char>, V)>, cap: nat, k: Seq<char>, v: V) -> Seq<
    (Seq<char>, V),
> {
    let i = key_index(m, k);
    if i >= 0 {
        m.remove(i).push((k, v))
    } else if m.len() < cap {
        m.push((k, v))
    } else if cap > 0 {
        m.drop_first().push((k, v))
    } else {
        m
    }
}

/// `key_index` finds a position holding `k` when one exists, and the
/// earliest such position.
pub proof fn lemma_key_index<V>(m: Seq<(Seq<char>, V)>, k: Seq<char>)
    ensures
        key_index(m, k) == -1 <==> (forall|j: int| 0 <= j < m.len() ==> (#[trigger] m[j]).0 != k),
        key_index(m, k) >= 0 ==> 0 <= key_index(m, k) < m.len() && m[key_index(m, k)].0 == k,
    decreases m.len(),
{
    if m.len() == 0 {
    } else if m[0].0 == k {
    } else {
        lemma_key_index(m.drop_first(), k);
        assert(forall|j: int|
            1 <= j < m.len() ==> (#[trigger] m[j]) == m.drop_first()[j - 1]);
    }
}

/// `key_index` returns the position of the first match.
pub proof fn lemma_key_index_first<V>(m: Seq<(Seq<char>, V)>, k: Seq<char>, i: int)
    requires
        0 <= i < m.len(),
        m[i].0 == k,
        forall|j: int| 0 <= j < i ==> (#[trigger] m[j]).0 != k,
    ensures
        key_index(m, k) == i,
    decreases i,
{
    if i == 0 {
    } else {
        assert(m.drop_first()[i - 1] == m[i]);
        assert(forall|j: int|
            0 <= j < i - 1 ==> (#[trigger] m.drop_first()[j]) == m[j + 1]);
        lemma_key_index_first(m.drop_first(), k, i - 1);
    }
}

/// A map from string keys to values that holds at most `capacity`
/// entries and evicts the least-recently-used entry first.
pub struct LRUCache<V> {
    capacity: usize,
    entries: Vec<(String, V)>,
}

impl<V> LRUCache<V> {
    /// The cache's contents as key/value pairs, ordered from least- to
    /// most-recently used.
    pub closed spec fn model(self) -> Seq<(Seq<char>, V)> {
        self.entries@.map_values(|e: (String, V)| (e.0@, e.1))
    }

    /// The fixed capacity the cache was created with.
    pub closed spec fn spec_capacity(self) -> nat {
        self.capacity as nat
    }

    /// The cache never outgrows its capacity and binds each key at most
    /// once.
    pub open spec fn wf(self) -> bool {
        &&& self.model().len() <= self.spec_capacity()
        &&& forall|i: int, j: int|
            0 <= i < j < self.model().len() ==> (#[trigger] self.model()[i]).0 != (
            #[trigger] self.model()[j]).0
    }

    /// Create an empty cache with a fixed capacity.
    pub fn with_capacity(capacity: usize) -> (r: Self)
        ensures
            r.wf(),
            r.model() == Seq::<(Seq<char>, V)>::empty(),
            r.spec_capacity() == capacity,
    {
        let r = LRUCache { capacity, entries: Vec::new() };
        proof {
            assert(r.model() =~= Seq::<(Seq<char>, V)>::empty());
        }
        r
    }

    /// Number of entries currently held.
    pub fn len(&self) -> (r: usize)
        ensures
            r == self.model().len(),
    {
        self.entries.len()
    }

    /// Position of `key` among the entries, if present.
    fn find_index(&self, key: &String) -> (r: Option<usize>)
        ensures
            match r {
                Some(i) => i as int == key_index(self.model(), key@),
                None => key_index(self.model(), key@) == -1,
            },
    {
        let mut i: usize = 0;
        while i < self.entries.len()
            invariant
                i <= self.entries.len(),
                forall|j: int| 0 <= j < i ==> (#[trigger] self.model()[j]).0 != key@,
            decreases self.entries.len() - i,
        {
            if self.entries[i].0 == *key {
                proof {
                    lemma_key_index_first(self.model(), key@, i as int);
                }
                return Some(i);
            }
            i += 1;
        }
        proof {
            lemma_key_index(self.model(), key@);
        }
        None
    }

    /// Returns the value bound to `key` and marks the key as the
    /// most-recently-used one; an absent key leaves the cache
    /// unchanged.
    pub fn get(&mut self, key: &String) -> (r: Option<&V>)
        requires
            old(self).wf(),
        ensures
            final(self).wf(),
            final(self).spec_capacity() == old(self).spec_capacity(),
            final(self).model() == touched(old(self).model(), key@),
            r is Some <==> has_key(old(self).model(), key@),
            r matches Some(v) ==> *v == old(self).model()[key_index(
                old(self).model(),
                key@,
            )].1,
    {
        proof {
            lemma_key_index(old(self).model(), key@);
        }
        match self.find_index(key) {
            None => None,
            Some(i) => {
                let ghost m0 = self.model();
                let e = self.entries.remove(i);
                self.entries.push(e);
                proof {
                    assert(self.model() =~= m0.remove(i as int).push(m0[i as int]));
                }
                let n = self.entries.len() - 1;
                Some(&self.entries[n].1)
            },
        }
    }

    /// Insert or re-bind `key`, making it the most-recently-used key;
    /// at capacity, a new key evicts the least-recently-used entry.
    pub fn put(&mut self, key: String, value: V)
        requires
            old(self).wf(),
        ensures
            final(self).wf(),
            final(self).spec_capacity() == old(self).spec_capacity(),
            final(self).model() == put_model(
                old(self).model(),
                old(self).spec_capacity(),
                key@,
                value,
            ),
    {
        proof {
            lemma_key_index(old(self).model(), key@);
        }
        let ghost m0 = self.model();
        match self.find_index(&key) {
            Some(i) => {
                self.entries.remove(i);
                self.entries.push((key, value));
                proof {
                    assert(self.model() =~= m0.remove(i as int).push((key@, value)));
                }
            },
            None => {
                if self.entries.len() >= self.capacity {
                    if self.entries.len() > 0 {
                        self.entries.remove(0);
                        self.entries.push((key, value));
                        proof {
                            assert(self.model() =~= m0.drop_first().push((key@, value)));
                        }
                    }
                    // A capacity of zero stores nothing.
                } else {
                    self.entries.push((key, value));
                    proof {
                        assert(self.model() =~= m0.push((key@, value)));
                    }
                }
            },
        }
    }

    /// Re-bind `key` through a borrowed key: the same transition as
    /// [`LRUCache::put`].
    pub fn update(&mut self, key: &String, value: V)
        requires
            old(self).wf(),
        ensures
            final(self).wf(),
            final(self).spec_capacity() == old(self).spec_capacity(),
            final(self).model() == put_model(
                old(self).model(),
                old(self).spec_capacity(),
                key@,
                value,
            ),
    {
        self.put(key.clone(), value);
    }
}

/// Looking a key up before re-binding it does not change the outcome:
/// either way the key ends up most recently used, bound to the new
/// value.
pub proof fn lemma_touch_then_put<V>(m: Seq<(Seq<char>, V)>, cap: nat, k: Seq<char>, v: V)
    requires
        forall|i: int, j: int|
            0 <= i < j < m.len() ==> (#[trigger] m[i]).0 != (#[trigger] m[j]).0,
    ensures
        put_model(touched(m, k), cap, k, v) == put_model(m, cap, k, v),
        key_index(touched(m, k), k) == if key_index(m, k) < 0 {
            -1int
        } else {
            m.len() - 1
        },
{
    lemma_key_index(m, k);
    let i = key_index(m, k);
    if i >= 0 {
        let t = touched(m, k);
        assert(t =~= m.remove(i).push(m[i]));
        assert(t[t.len() - 1].0 == k);
        assert forall|j: int| 0 <= j < t.len() - 1 implies (#[trigger] t[j]).0 != k by {
            if j < i {
                assert(t[j] == m[j]);
            } else {
                assert(t[j] == m[j + 1]);
            }
        }
        lemma_key_index_first(t, k, t.len() - 1);
        assert(put_model(t, cap, k, v) =~= t.remove(t.len() - 1).push((k, v)));
        assert(t.remove(t.len() - 1) =~= m.remove(i));
        assert(put_model(m, cap, k, v) =~= m.remove(i).push((k, v)));
    }
}

/// The contents after inserting each entry of `xs`, in order, into a
/// cache of capacity `cap` that starts as `m`.
pub open spec fn fill<V>(m: Seq<(Seq<char>, V)>, cap: nat, xs: Seq<(Seq<char>, V)>) -> Seq<
    (Seq<char>, V),
>
    decreases xs.len(),
{
    if xs.len() == 0 {
        m
    } else {
        fill(put_model(m, cap, xs[0].0, xs[0].1), cap, xs.drop_first())
    }
}

/// Inserting entries with fresh keys into a cache that has room for all
/// of them appends them in order and evicts nothing.
proof fn lemma_fill_under_cap<V>(m: Seq<(Seq<char>, V)>, cap: nat, xs: Seq<(Seq<char>, V)>)
    requires
        m.len() + xs.len() <= cap,
        forall|i: int, j: int|
            0 <= i < j < xs.len() ==> (#[trigger] xs[i]).0 != (#[trigger] xs[j]).0,
        forall|i: int, j: int|
            0 <= i < m.len() && 0 <= j < xs.len() ==> (#[trigger] m[i]).0 != (
            #[trigger] xs[j]).0,
    ensures
        fill(m, cap, xs) == m + xs,
    decreases xs.len(),
{
    if xs.len() == 0 {
        assert(fill(m, cap, xs) =~= m + xs);
    } else {
        lemma_key_index(m, xs[0].0);
        assert(key_index(m, xs[0].0) == -1);
        let m1 = put_model(m, cap, xs[0].0, xs[0].1);
        assert(m1 =~= m.push((xs[0].0, xs[0].1)));
        assert(m1 =~= m + seq![(xs[0].0, xs[0].1)]);
        lemma_fill_under_cap(m1, cap, xs.drop_first());
        assert(m1 + xs.drop_first() =~= m + xs);
    }
}

/// LRU eviction law: inserting `cap + 1` entries with distinct keys
/// into an empty cache of capacity `cap` leaves exactly the last `cap`
/// entries, in insertion order; the first-inserted key has been
/// evicted and all the others are present.
pub proof fn lemma_lru_eviction<V>(cap: nat, xs: Seq<(Seq<char>, V)>)
    requires
        cap >= 1,
        xs.len() == cap + 1,
        forall|i: int, j: int|
            0 <= i < j < xs.len() ==> (#[trigger] xs[i]).0 != (#[trigger] xs[j]).0,
    ensures
        fill(Seq::empty(), cap, xs) == xs.drop_first(),
        !has_key(fill(Seq::empty(), cap, xs), xs[0].0),
        forall|j: int|
            1 <= j < xs.len() ==> has_key(fill(Seq::empty(), cap, xs), (#[trigger] xs[j]).0),
    decreases cap,
{
    let head = xs.take(cap as int);
    let empty = Seq::<(Seq<char>, V)>::empty();
    lemma_fill_under_cap(empty, cap, head);
    assert(fill(empty, cap, head) =~= head);
    lemma_fill_concat(empty, cap, head, xs.skip(cap as int));
    assert(head + xs.skip(cap as int) =~= xs);
    let last = xs[cap as int];
    lemma_key_index(head, last.0);
    assert(key_index(head, last.0) == -1);
    let result = put_model(head, cap, last.0, last.1);
    assert(xs.skip(cap as int) =~= seq![last]);
    assert(fill(head, cap, seq![last]) == fill(result, cap, seq![last].drop_first()));
    assert(seq![last].drop_first() =~= Seq::<(Seq<char>, V)>::empty());
    assert(fill(empty, cap, xs) == result);
    assert(result =~= xs.drop_first());
    lemma_key_index(result, xs[0].0);
    assert(forall|j: int|
        0 <= j < result.len() ==> (#[trigger] result[j]) == xs[j + 1]);
    assert forall|j: int| 1 <= j < xs.len() implies has_key(result, (#[trigger] xs[j]).0) by {
        lemma_key_index(result, xs[j].0);
        assert(result[j - 1].0 == xs[j].0);
    }
}

/// Filling with a concatenation fills with each part in turn.
proof fn lemma_fill_concat<V>(
    m: Seq<(Seq<char>, V)>,
    cap: nat,
    a: Seq<(Seq<char>, V)>,
    b: Seq<(Seq<char>, V)>,
)
    ensures
        fill(m, cap, a + b) == fill(fill(m, cap, a), cap, b),
    decreases a.len(),
{
    if a.len() == 0 {
        assert(a + b =~= b);
    } else {
        let m1 = put_model(m, cap, a[0].0, a[0].1);
        assert((a + b)[0] == a[0]);
        assert((a + b).drop_first() =~= a.drop_first() + b);
        lemma_fill_concat(m1, cap, a.drop_first(), b);
    }
}

/// Touch-protection law: in a full cache holding at least two entries,
/// looking up a present key `k` and then inserting a fresh key evicts
/// some other entry, never `k`.
pub proof fn lemma_touch_protects<V>(
    m: Seq<(Seq<char>, V)>,
    cap: nat,
    k: Seq<char>,
    k2: Seq<char>,
    v2: V,
)
    requires
        cap >= 2,
        m.len() == cap,
        forall|i: int, j: int|
            0 <= i < j < m.len() ==> (#[trigger] m[i]).0 != (#[trigger] m[j]).0,
        has_key(m, k),
        !has_key(m, k2),
    ensures
        has_key(put_model(touched(m, k), cap, k2, v2), k),
{
    lemma_key_index(m, k);
    let i = key_index(m, k);
    let t = touched(m, k);
    assert(t =~= m.remove(i).push(m[i]));
    assert(t[t.len() - 1].0 == k);
    lemma_key_index(t, k2);
    assert forall|j: int| 0 <= j < t.len() implies (#[trigger] t[j]).0 != k2 by {
        lemma_key_index(m, k2);
        if j < i {
            assert(t[j] == m[j]);
        } else if j < t.len() - 1 {
            assert(t[j] == m[j + 1]);
        } else {
            assert(t[j] == m[i]);
        }
    }
    assert(key_index(t, k2) == -1);
    let r = put_model(t, cap, k2, v2);
    assert(r =~= t.drop_first().push((k2, v2)));
    assert(r[t.len() - 2].0 == k);
    lemma_key_index(r, k);
    assert(key_index(r, k) != -1);
}

/// Touch-protection law for insertions: re-binding a present key `k`
/// in a full cache of at least two entries and then inserting a fresh
/// key evicts some other entry, never `k`.
pub proof fn lemma_rebind_protects<V>(
    m: Seq<(Seq<char>, V)>,
    cap: nat,
    k: Seq<char>,
    v: V,
    k2: Seq<char>,
    v2: V,
)
    requires
        cap >= 2,
        m.len() == cap,
        forall|i: int, j: int|
            0 <= i < j < m.len() ==> (#[trigger] m[i]).0 != (#[trigger] m[j]).0,
        has_key(m, k),
        !has_key(m, k2),
    ensures
        has_key(put_model(put_model(m, cap, k, v), cap, k2, v2), k),
{
    lemma_key_index(m, k);
    let i = key_index(m, k);
    let t = put_model(m, cap, k, v);
    assert(t =~= m.remove(i).push((k, v)));
    assert(t[t.len() - 1].0 == k);
    lemma_key_index(t, k2);
    assert forall|j: int| 0 <= j < t.len() implies (#[trigger] t[j]).0 != k2 by {
        lemma_key_index(m, k2);
        if j < i {
            assert(t[j] == m[j]);
        } else if j < t.len() - 1 {
            assert(t[j] == m[j + 1]);
        }
    }
    assert(key_index(t, k2) == -1);
    let r = put_model(t, cap, k2, v2);
    assert(r =~= t.drop_first().push((k2, v2)));
    assert(r[t.len() - 2].0 == k);
    lemma_key_index(r, k);
    assert(key_index(r, k) != -1);
}

} // verus!
