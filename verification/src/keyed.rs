//! Small ordered collections keyed by values that can be told apart.

use vstd::prelude::*;

verus! {

/// A value that can serve as a key: two keys name the same entry exactly when their views agree.
pub trait Key: View + Sized {
    fn same(&self, other: &Self) -> (b: bool)
        ensures
            b == (self@ == other@),
    ;
}

/// A finite map that remembers the order in which its keys were first inserted.
#[derive(Debug)]
pub struct Table<K: Key, V> {
    keys: Vec<K>,
    values: Vec<V>,
}

/// Keys and values side by side.
pub open spec fn paired<K, V>(keys: Seq<K>, values: Seq<V>) -> Seq<(K, V)> {
    Seq::new(keys.len(), |i: int| (keys[i], values[i]))
}

/// `i` is the first position of `s` that holds the key `k`.
pub open spec fn first_at<K: View, V>(s: Seq<(K, V)>, k: K::V, i: int) -> bool {
    &&& 0 <= i < s.len()
    &&& s[i].0@ == k
    &&& forall|j: int| 0 <= j < i ==> (#[trigger] s[j]).0@ != k
}

/// The map that a list of entries stands for: an earlier entry hides a later one of the same key.
pub open spec fn as_map<K: View, V>(s: Seq<(K, V)>) -> Map<K::V, V> {
    Map::new(
        |k: K::V| exists|i: int| first_at(s, k, i),
        |k: K::V| s[choose|i: int| first_at(s, k, i)].1,
    )
}

proof fn lemma_first<K: View, V>(s: Seq<(K, V)>, k: K::V, i: int)
    requires
        first_at(s, k, i),
    ensures
        as_map(s).dom().contains(k),
        as_map(s)[k] == s[i].1,
        forall|c: int| first_at(s, k, c) ==> c == i,
{
    assert forall|c: int| first_at(s, k, c) implies c == i by {
        if c < i {
            assert(s[c].0@ != k);
        }
        if i < c {
            assert(s[i].0@ != k);
        }
    }
}

/// Keys decide the domain, so overwriting the value at the first position of a key is an insertion.
proof fn lemma_overwrite<K: View, V>(s: Seq<(K, V)>, i: int, e: (K, V))
    requires
        first_at(s, e.0@, i),
    ensures
        as_map(s.update(i, e)) == as_map(s).insert(e.0@, e.1),
{
    let t = s.update(i, e);
    let k = e.0@;
    assert(forall|m: int|
        #![trigger t[m]]
        #![trigger s[m]]
        0 <= m < s.len() ==> t[m].0@ == s[m].0@);
    assert forall|q: K::V, j: int| first_at(t, q, j) == first_at(s, q, j) by {
        if first_at(t, q, j) {
            assert forall|m: int| 0 <= m < j implies (#[trigger] s[m]).0@ != q by {
                assert(t[m].0@ != q);
            }
        }
        if first_at(s, q, j) {
            assert forall|m: int| 0 <= m < j implies (#[trigger] t[m]).0@ != q by {
                assert(s[m].0@ != q);
            }
        }
    }
    lemma_first(t, k, i);
    assert forall|q: K::V| #[trigger] as_map(t).dom().contains(q) implies as_map(t)[q]
        == as_map(s).insert(k, e.1)[q] by {
        let j = choose|j: int| first_at(t, q, j);
        lemma_first(t, q, j);
        lemma_first(s, q, j);
    }
    assert forall|q: K::V| as_map(t).dom().contains(q) == #[trigger] as_map(s).insert(k, e.1).dom().contains(q) by {
        if as_map(s).dom().contains(q) {
            let j = choose|j: int| first_at(s, q, j);
            assert(first_at(t, q, j));
        }
        if as_map(t).dom().contains(q) {
            let j = choose|j: int| first_at(t, q, j);
            assert(first_at(s, q, j));
        }
    }
    assert(as_map(t) =~= as_map(s).insert(k, e.1));
}

proof fn lemma_append<K: View, V>(s: Seq<(K, V)>, e: (K, V))
    requires
        forall|j: int| 0 <= j < s.len() ==> (#[trigger] s[j]).0@ != e.0@,
    ensures
        as_map(s.push(e)) == as_map(s).insert(e.0@, e.1),
{
    let t = s.push(e);
    let k = e.0@;
    assert(first_at(t, k, s.len() as int));
    lemma_first(t, k, s.len() as int);
    assert forall|q: K::V, j: int| q != k implies first_at(t, q, j) == first_at(s, q, j) by {
        assert forall|m: int| 0 <= m < s.len() implies #[trigger] t[m] == s[m] by {}
        if first_at(t, q, j) {
            assert(j != s.len());
            assert forall|m: int| 0 <= m < j implies (#[trigger] s[m]).0@ != q by {
                assert(t[m].0@ != q);
            }
        }
        if first_at(s, q, j) {
            assert forall|m: int| 0 <= m < j implies (#[trigger] t[m]).0@ != q by {
                assert(s[m].0@ != q);
            }
        }
    }
    assert forall|q: K::V| as_map(t).dom().contains(q) == #[trigger] as_map(s).insert(k, e.1).dom().contains(q) by {
        if q != k {
            if as_map(s).dom().contains(q) {
                let j = choose|j: int| first_at(s, q, j);
                assert(first_at(t, q, j));
            }
            if as_map(t).dom().contains(q) {
                let j = choose|j: int| first_at(t, q, j);
                assert(first_at(s, q, j));
            }
        }
    }
    assert forall|q: K::V| #[trigger] as_map(t).dom().contains(q) implies as_map(t)[q]
        == as_map(s).insert(k, e.1)[q] by {
        if q != k {
            let j = choose|j: int| first_at(t, q, j);
            lemma_first(t, q, j);
            lemma_first(s, q, j);
        }
    }
    assert(as_map(t) =~= as_map(s).insert(k, e.1));
}

/// Dropping one entry of a key leaves what the list says of every other key.
proof fn lemma_drop<K: View, V>(s: Seq<(K, V)>, i: int)
    requires
        0 <= i < s.len(),
    ensures
        as_map(s.remove(i)).remove(s[i].0@) == as_map(s).remove(s[i].0@),
{
    let t = s.remove(i);
    let k = s[i].0@;
    assert forall|q: K::V, j: int| q != k && first_at(s, q, j) implies first_at(
        t,
        q,
        if j < i {
            j
        } else {
            j - 1
        },
    ) by {
        let n = if j < i { j } else { j - 1 };
        assert(t[n] == s[j]);
        assert forall|m: int| 0 <= m < n implies (#[trigger] t[m]).0@ != q by {
            if m < i {
                assert(t[m] == s[m]);
            } else {
                assert(t[m] == s[m + 1]);
            }
        }
    }
    assert forall|q: K::V, j: int| q != k && first_at(t, q, j) implies first_at(
        s,
        q,
        if j < i {
            j
        } else {
            j + 1
        },
    ) by {
        let n = if j < i { j } else { j + 1 };
        assert(t[j] == s[n]);
        assert forall|m: int| 0 <= m < n implies (#[trigger] s[m]).0@ != q by {
            if m < i {
                assert(t[m] == s[m]);
            } else if m > i {
                assert(t[m - 1] == s[m]);
            }
        }
    }
    assert forall|q: K::V| q != k implies as_map(t).dom().contains(q) == #[trigger] as_map(s).dom().contains(q) by {
        if as_map(s).dom().contains(q) {
            let j = choose|j: int| first_at(s, q, j);
            assert(first_at(t, q, if j < i { j } else { j - 1 }));
        }
        if as_map(t).dom().contains(q) {
            let j = choose|j: int| first_at(t, q, j);
            assert(first_at(s, q, if j < i { j } else { j + 1 }));
        }
    }
    assert forall|q: K::V| q != k && as_map(s).dom().contains(q) implies #[trigger] as_map(t)[q]
        == as_map(s)[q] by {
        let j = choose|j: int| first_at(s, q, j);
        lemma_first(s, q, j);
        lemma_first(t, q, if j < i { j } else { j - 1 });
    }
    assert(as_map(t).remove(k) =~= as_map(s).remove(k));
}

/// The keys of a list of entries, in order.
pub open spec fn keys_in_order<K: View, V>(s: Seq<(K, V)>) -> Seq<K::V> {
    Seq::new(s.len(), |i: int| s[i].0@)
}

/// Being anything but one value.
pub open spec fn unlike<Q>(q: Q) -> spec_fn(Q) -> bool {
    |x: Q| x != q
}

/// A filter keeps every element when every element passes.
pub proof fn lemma_filter_all<T>(s: Seq<T>, p: spec_fn(T) -> bool)
    requires
        forall|i: int| 0 <= i < s.len() ==> p(#[trigger] s[i]),
    ensures
        s.filter(p) == s,
    decreases s.len(),
{
    reveal(Seq::filter);
    if s.len() > 0 {
        lemma_filter_all(s.drop_last(), p);
        assert(s.drop_last().push(s.last()) =~= s);
    } else {
        assert(s.filter(p) =~= s);
    }
}

/// Dropping an element that does not pass changes nothing of what a filter keeps.
pub proof fn lemma_filter_drop<T>(s: Seq<T>, i: int, p: spec_fn(T) -> bool)
    requires
        0 <= i < s.len(),
        !p(s[i]),
    ensures
        s.remove(i).filter(p) == s.filter(p),
    decreases s.len(),
{
    reveal(Seq::filter);
    if i == s.len() - 1 {
        assert(s.remove(i) =~= s.drop_last());
    } else {
        lemma_filter_drop(s.drop_last(), i, p);
        assert(s.remove(i).drop_last() =~= s.drop_last().remove(i));
        assert(s.remove(i).last() == s.last());
    }
}

/// What a filter keeps of one element more.
pub proof fn lemma_filter_push<T>(s: Seq<T>, x: T, p: spec_fn(T) -> bool)
    ensures
        s.push(x).filter(p) == (if p(x) {
            s.filter(p).push(x)
        } else {
            s.filter(p)
        }),
{
    reveal(Seq::filter);
    assert(s.push(x).drop_last() =~= s);
}

/// A key that occurs has a first place.
proof fn lemma_earliest<K: View, V>(s: Seq<(K, V)>, k: K::V, i: int)
    requires
        0 <= i < s.len(),
        s[i].0@ == k,
    ensures
        exists|j: int| first_at(s, k, j),
    decreases i,
{
    if forall|j: int| 0 <= j < i ==> (#[trigger] s[j]).0@ != k {
        assert(first_at(s, k, i));
    } else {
        let j = choose|j: int| 0 <= j < i && (#[trigger] s[j]).0@ == k;
        lemma_earliest(s, k, j);
    }
}

impl<K: Key, V> View for Table<K, V> {
    type V = Map<K::V, V>;

    closed spec fn view(&self) -> Map<K::V, V> {
        as_map(paired(self.keys@, self.values@))
    }
}

impl<K: Key, V> Table<K, V> {
    #[verifier::type_invariant]
    spec fn holds_keys_once(self) -> bool {
        &&& self.keys@.len() == self.values@.len()
        &&& forall|i: int, j: int|
            0 <= i < j < self.keys@.len() ==> (#[trigger] self.keys@[i])@ != (
            #[trigger] self.keys@[j])@
    }

    /// The entries in the order in which their keys were first inserted.
    pub closed spec fn seq(&self) -> Seq<(K, V)> {
        paired(self.keys@, self.values@)
    }

    /// The keys in the order in which they were first inserted.
    pub open spec fn order(&self) -> Seq<K::V> {
        keys_in_order(self.seq())
    }

    /// The keys in their order are the keys that a look-up finds.
    pub proof fn lemma_order(&self)
        ensures
            forall|k: K::V| #[trigger]
                self@.dom().contains(k) <==> exists|i: int|
                    0 <= i < self.order().len() && #[trigger] self.order()[i] == k,
    {
        let s = self.seq();
        assert forall|k: K::V| #[trigger] self@.dom().contains(k) <==> exists|i: int|
            0 <= i < self.order().len() && #[trigger] self.order()[i] == k by {
            if self@.dom().contains(k) {
                let i = choose|i: int| first_at(s, k, i);
                assert(self.order()[i] == k);
            }
            if exists|i: int| 0 <= i < self.order().len() && #[trigger] self.order()[i] == k {
                let i = choose|i: int| 0 <= i < self.order().len() && #[trigger] self.order()[i] == k;
                lemma_earliest(s, k, i);
            }
        }
    }

    pub fn new() -> (m: Self)
        ensures
            m@ == Map::<K::V, V>::empty(),
            m.seq() == Seq::<(K, V)>::empty(),
            m.order() == Seq::<K::V>::empty(),
    {
        let m = Table { keys: Vec::new(), values: Vec::new() };
        assert(m.seq() =~= Seq::<(K, V)>::empty());
        assert(m.order() =~= Seq::<K::V>::empty());
        assert(m@ =~= Map::<K::V, V>::empty());
        m
    }

    fn position(&self, key: &K) -> (r: Option<usize>)
        ensures
            self.keys@.len() == self.values@.len(),
            match r {
                Some(i) => first_at(self.seq(), key@, i as int) && self@.dom().contains(key@)
                    && self@[key@] == self.values@[i as int],
                None => !self@.dom().contains(key@) && forall|j: int|
                    0 <= j < self.seq().len() ==> (#[trigger] self.seq()[j]).0@ != key@,
            },
    {
        proof {
            use_type_invariant(self);
        }
        let ghost s = self.seq();
        let mut i: usize = 0;
        while i < self.keys.len()
            invariant
                i <= self.keys@.len(),
                self.keys@.len() == self.values@.len(),
                s == self.seq(),
                forall|j: int| 0 <= j < i ==> (#[trigger] s[j]).0@ != key@,
            decreases self.keys.len() - i,
        {
            if self.keys[i].same(key) {
                assert(s[i as int].0@ == key@);
                proof {
                    lemma_first(s, key@, i as int);
                }
                return Some(i);
            }
            i += 1;
        }
        None
    }

    pub fn get(&self, key: &K) -> (r: Option<&V>)
        ensures
            match r {
                Some(v) => self@.dom().contains(key@) && *v == self@[key@],
                None => !self@.dom().contains(key@),
            },
    {
        match self.position(key) {
            Some(i) => Some(&self.values[i]),
            None => None,
        }
    }

    pub fn contains_key(&self, key: &K) -> (b: bool)
        ensures
            b == self@.dom().contains(key@),
    {
        self.position(key).is_some()
    }

    pub fn get_mut(&mut self, key: &K) -> (r: Option<&mut V>)
        ensures
            match r {
                Some(v) => old(self)@.dom().contains(key@) && *v == old(self)@[key@]
                    && final(self)@ == old(self)@.insert(key@, *final(v)),
                None => !old(self)@.dom().contains(key@) && *final(self) == *old(self),
            },
            final(self).order() == old(self).order(),
    {
        proof {
            use_type_invariant(&*self);
        }
        match self.position(key) {
            Some(i) => {
                proof {
                    let s = self.seq();
                    let keys = self.keys@;
                    let values = self.values@;
                    assert forall|v: V|
                        #![trigger paired(keys, values.update(i as int, v))]
                        as_map(paired(keys, values.update(i as int, v))) == as_map(s).insert(key@, v)
                            && keys_in_order(paired(keys, values.update(i as int, v)))
                            == keys_in_order(s) by {
                        lemma_overwrite(s, i as int, (keys[i as int], v));
                        assert(paired(keys, values.update(i as int, v)) =~= s.update(
                            i as int,
                            (keys[i as int], v),
                        ));
                        assert(keys_in_order(paired(keys, values.update(i as int, v)))
                            =~= keys_in_order(s));
                    }
                }
                Some(&mut self.values[i])
            },
            None => None,
        }
    }

    /// Sets the value of `key`; a key that is present keeps its place.
    pub fn insert(&mut self, key: K, value: V)
        ensures
            final(self)@ == old(self)@.insert(key@, value),
            final(self).order() == (if old(self)@.dom().contains(key@) {
                old(self).order()
            } else {
                old(self).order().push(key@)
            }),
    {
        let ghost s = self.seq();
        match self.position(&key) {
            Some(i) => {
                if let Some(v) = self.get_mut(&key) {
                    *v = value;
                }
            },
            None => {
                proof {
                    use_type_invariant(&*self);
                    lemma_append(s, (key, value));
                }
                let mut old_table = Table { keys: Vec::new(), values: Vec::new() };
                std::mem::swap(&mut old_table, self);
                proof {
                    use_type_invariant(&old_table);
                }
                let Table { mut keys, mut values } = old_table;
                proof {
                    assert forall|j: int| 0 <= j < keys@.len() implies (#[trigger] keys@[j])@
                        != key@ by {
                        assert(s[j].0@ != key@);
                    }
                }
                keys.push(key);
                values.push(value);
                assert(paired(keys@, values@) =~= s.push((key, value)));
                assert(keys_in_order(s.push((key, value))) =~= keys_in_order(s).push(key@));
                *self = Table { keys, values };
            },
        }
    }

    /// Takes the entry of `key` out.
    pub fn remove(&mut self, key: &K) -> (r: Option<V>)
        ensures
            final(self)@ == old(self)@.remove(key@),
            r == (if old(self)@.dom().contains(key@) {
                Some(old(self)@[key@])
            } else {
                None
            }),
            final(self).order() == old(self).order().filter(unlike(key@)),
    {
        let ghost keep = unlike(key@);
        let ghost s = self.seq();
        match self.position(key) {
            Some(i) => {
                let mut old_table = Table { keys: Vec::new(), values: Vec::new() };
                std::mem::swap(&mut old_table, self);
                proof {
                    use_type_invariant(&old_table);
                }
                let Table { mut keys, mut values } = old_table;
                let ghost before = keys@;
                let _ = keys.remove(i);
                let value = values.remove(i);
                proof {
                    let t = paired(keys@, values@);
                    assert(t =~= s.remove(i as int));
                    lemma_drop(s, i as int);
                    lemma_filter_drop(keys_in_order(s), i as int, keep);
                    assert(keys_in_order(t) =~= keys_in_order(s).remove(i as int));
                    assert forall|a: int, b: int| 0 <= a < b < keys@.len() implies (
                    #[trigger] keys@[a])@ != (#[trigger] keys@[b])@ by {
                        let x = if a < i { a } else { a + 1 };
                        let y = if b < i { b } else { b + 1 };
                        assert(before[x]@ != before[y]@);
                    }
                    assert forall|j: int| 0 <= j < t.len() implies (#[trigger] t[j]).0@ != key@ by {
                        let x = if j < i { j } else { j + 1 };
                        assert(t[j] == s[x]);
                        if x < i {
                            assert(before[x]@ != before[i as int]@);
                        } else {
                            assert(before[i as int]@ != before[x]@);
                        }
                    }
                    assert(!as_map(t).dom().contains(key@));
                    assert(as_map(t).remove(key@) =~= as_map(t));
                    lemma_filter_all(keys_in_order(t), keep);
                }
                *self = Table { keys, values };
                Some(value)
            },
            None => {
                proof {
                    assert(as_map(s).remove(key@) =~= as_map(s));
                    assert forall|j: int| 0 <= j < keys_in_order(s).len() implies keep(
                        #[trigger] keys_in_order(s)[j],
                    ) by {
                        assert(s[j].0@ != key@);
                    }
                    lemma_filter_all(keys_in_order(s), keep);
                }
                None
            },
        }
    }

    /// The number of entries. No key has two of them.
    pub fn len(&self) -> (n: usize)
        ensures
            n == self.seq().len(),
            self.order().no_duplicates(),
    {
        proof {
            use_type_invariant(self);
            let s = self.seq();
            assert forall|i: int, j: int|
                0 <= i < self.order().len() && 0 <= j < self.order().len() && i
                    != j implies self.order()[i] != self.order()[j] by {
                if i < j {
                    assert(self.keys@[i]@ != self.keys@[j]@);
                } else {
                    assert(self.keys@[j]@ != self.keys@[i]@);
                }
            }
        }
        self.keys.len()
    }

    /// The key of the `i`-th entry.
    pub fn key_at(&self, i: usize) -> (k: &K)
        requires
            i < self.seq().len(),
        ensures
            *k == self.seq()[i as int].0,
    {
        &self.keys[i]
    }

    /// The value of the `i`-th entry.
    pub fn value_at(&self, i: usize) -> (v: &V)
        requires
            i < self.seq().len(),
        ensures
            *v == self.seq()[i as int].1,
    {
        proof {
            use_type_invariant(self);
        }
        &self.values[i]
    }
}

/// The sum of the values of a map.
pub open spec fn map_total<Q>(m: Map<Q, u32>) -> nat
    decreases m.dom().len(),
{
    if m.dom().finite() && m.dom().len() > 0 {
        let k = m.dom().choose();
        m[k] as nat + map_total(m.remove(k))
    } else {
        0
    }
}

/// What one key adds to the sum.
pub proof fn lemma_total_remove<Q>(m: Map<Q, u32>, k: Q)
    requires
        m.dom().finite(),
        m.dom().contains(k),
    ensures
        map_total(m) == m[k] as nat + map_total(m.remove(k)),
    decreases m.dom().len(),
{
    let c = m.dom().choose();
    assert(m.dom().contains(c));
    if c != k {
        lemma_total_remove(m.remove(c), k);
        lemma_total_remove(m.remove(k), c);
        assert(m.remove(c).remove(k) =~= m.remove(k).remove(c));
    }
}

/// What a new key adds to the sum.
pub proof fn lemma_total_insert<Q>(m: Map<Q, u32>, k: Q, v: u32)
    requires
        m.dom().finite(),
        !m.dom().contains(k),
    ensures
        map_total(m.insert(k, v)) == map_total(m) + v as nat,
{
    lemma_total_remove(m.insert(k, v), k);
    assert(m.insert(k, v).remove(k) =~= m);
}

impl<K: Key> Table<K, u32> {
    /// The sum of the values, cut at the greatest signed number of 32 bits.
    pub fn total(&self) -> (r: i32)
        ensures
            r == (if map_total(self@) > i32::MAX {
                i32::MAX as int
            } else {
                map_total(self@) as int
            }),
    {
        proof {
            use_type_invariant(self);
        }
        let ghost s = self.seq();
        let mut sum: u64 = 0;
        let mut i: usize = 0;
        assert(as_map(s.take(0)).dom() =~= Set::<K::V>::empty());
        while i < self.values.len()
            invariant
                i <= s.len(),
                s == self.seq(),
                self.keys@.len() == self.values@.len(),
                s.len() == self.values@.len(),
                forall|i: int, j: int|
                    0 <= i < j < self.keys@.len() ==> (#[trigger] self.keys@[i])@ != (
                    #[trigger] self.keys@[j])@,
                as_map(s.take(i as int)).dom().finite(),
                sum == (if map_total(as_map(s.take(i as int))) > u64::MAX {
                    u64::MAX as int
                } else {
                    map_total(as_map(s.take(i as int))) as int
                }),
            decreases s.len() - i,
        {
            proof {
                let front = s.take(i as int);
                let k = s[i as int].0@;
                assert(s.take(i + 1) =~= front.push(s[i as int]));
                assert forall|h: int| 0 <= h < front.len() implies (#[trigger] front[h]).0@ != k by {
                    assert(s[h] == front[h]);
                    assert(self.keys@[h]@ != self.keys@[i as int]@);
                }
                lemma_append(front, s[i as int]);
                assert(!as_map(front).dom().contains(k)) by {
                    if exists|h: int| first_at(front, k, h) {
                        let h = choose|h: int| first_at(front, k, h);
                        assert(front[h].0@ == k);
                    }
                }
                lemma_total_insert(as_map(front), k, s[i as int].1);
            }
            sum = sum.saturating_add(self.values[i] as u64);
            i += 1;
        }
        assert(s.take(i as int) =~= s);
        if sum > i32::MAX as u64 {
            i32::MAX
        } else {
            sum as i32
        }
    }
}

impl<K: Key, V> Table<K, V> {
    /// Whether there is no entry.
    pub fn is_empty(&self) -> (b: bool)
        ensures
            b == (self.seq().len() == 0),
    {
        self.keys.len() == 0
    }
}

/// A finite set of keys.
#[derive(Debug)]
pub struct KeySet<K: Key> {
    members: Vec<K>,
}

/// The set of the keys that a list holds.
pub open spec fn as_set<K: View>(s: Seq<K>) -> Set<K::V> {
    Set::new(|k: K::V| exists|i: int| 0 <= i < s.len() && (#[trigger] s[i])@ == k)
}

impl<K: Key> View for KeySet<K> {
    type V = Set<K::V>;

    closed spec fn view(&self) -> Set<K::V> {
        as_set(self.members@)
    }
}

impl<K: Key> KeySet<K> {
    #[verifier::type_invariant]
    spec fn holds_members_once(self) -> bool {
        forall|i: int, j: int|
            0 <= i < j < self.members@.len() ==> (#[trigger] self.members@[i])@ != (
            #[trigger] self.members@[j])@
    }

    /// The members in the order in which they were added.
    pub closed spec fn seq(&self) -> Seq<K> {
        self.members@
    }

    /// A key is a member exactly when the list of members holds it.
    pub proof fn lemma_members(&self)
        ensures
            forall|k: K::V|
                self@.contains(k) <==> exists|i: int|
                    0 <= i < self.seq().len() && (#[trigger] self.seq()[i])@ == k,
    {
        assert(self.seq() == self.members@);
        assert forall|k: K::V|
            self@.contains(k) <==> exists|i: int|
                0 <= i < self.seq().len() && (#[trigger] self.seq()[i])@ == k by {
            if self@.contains(k) {
                let i = choose|i: int| 0 <= i < self.members@.len() && (#[trigger] self.members@[i])@ == k;
                assert(self.seq()[i]@ == k);
            }
            if exists|i: int| 0 <= i < self.seq().len() && (#[trigger] self.seq()[i])@ == k {
                let i = choose|i: int| 0 <= i < self.seq().len() && (#[trigger] self.seq()[i])@ == k;
                assert(self.members@[i]@ == k);
            }
        }
    }

    pub fn new() -> (s: Self)
        ensures
            s@ == Set::<K::V>::empty(),
            s.seq() == Seq::<K>::empty(),
    {
        let s = KeySet { members: Vec::new() };
        assert(s@ =~= Set::<K::V>::empty());
        s
    }

    pub fn contains(&self, key: &K) -> (b: bool)
        ensures
            b == self@.contains(key@),
    {
        let mut i: usize = 0;
        while i < self.members.len()
            invariant
                i <= self.members@.len(),
                forall|j: int| 0 <= j < i ==> (#[trigger] self.members@[j])@ != key@,
            decreases self.members.len() - i,
        {
            if self.members[i].same(key) {
                return true;
            }
            i += 1;
        }
        false
    }

    /// Adds a key; one that is a member already changes nothing.
    pub fn insert(&mut self, key: K)
        ensures
            final(self)@ == old(self)@.insert(key@),
            final(self).seq() == (if old(self)@.contains(key@) {
                old(self).seq()
            } else {
                old(self).seq().push(key)
            }),
    {
        if !self.contains(&key) {
            let ghost s = self.members@;
            proof {
                use_type_invariant(&*self);
            }
            let mut members: Vec<K> = Vec::new();
            std::mem::swap(&mut members, &mut self.members);
            members.push(key);
            self.members = members;
            proof {
                let t = self.members@;
                assert forall|k: K::V| as_set(t).contains(k) == #[trigger] as_set(s).insert(key@).contains(k) by {
                    if as_set(s).contains(k) {
                        let i = choose|i: int| 0 <= i < s.len() && (#[trigger] s[i])@ == k;
                        assert(t[i]@ == k);
                    }
                    if k == key@ {
                        assert(t[s.len() as int]@ == k);
                    }
                    if as_set(t).contains(k) && k != key@ {
                        let i = choose|i: int| 0 <= i < t.len() && (#[trigger] t[i])@ == k;
                        assert(s[i]@ == k);
                    }
                }
                assert(as_set(t) =~= as_set(s).insert(key@));
            }
        } else {
            assert(self@ =~= self@.insert(key@));
        }
    }

    /// The number of members, each counted once.
    pub fn len(&self) -> (n: usize)
        ensures
            n == self.seq().len(),
            forall|i: int, j: int|
                0 <= i < j < self.seq().len() ==> (#[trigger] self.seq()[i])@ != (
                #[trigger] self.seq()[j])@,
    {
        proof {
            use_type_invariant(self);
        }
        self.members.len()
    }

    /// The `i`-th member.
    pub fn at(&self, i: usize) -> (k: &K)
        requires
            i < self.seq().len(),
        ensures
            *k == self.seq()[i as int],
    {
        &self.members[i]
    }
}

} // verus!
