//! Lists: searching, counting, adding up.

use vstd::prelude::*;
use crate::keyed::Key;
use crate::views::seq_view;

verus! {

/// `i` is the first position of `s` whose element satisfies `p`.
pub open spec fn is_first<T>(s: Seq<T>, p: spec_fn(T) -> bool, i: int) -> bool {
    &&& 0 <= i < s.len()
    &&& p(s[i])
    &&& forall|j: int| 0 <= j < i ==> !p(#[trigger] s[j])
}

/// The first position of `s` whose element satisfies `p`, if there is one.
pub open spec fn first_where<T>(s: Seq<T>, p: spec_fn(T) -> bool) -> Option<int> {
    if exists|i: int| is_first(s, p, i) {
        Some(choose|i: int| is_first(s, p, i))
    } else {
        None
    }
}

/// A first position found is the one that `first_where` speaks of.
pub proof fn lemma_first_where<T>(s: Seq<T>, p: spec_fn(T) -> bool, i: int)
    requires
        is_first(s, p, i),
    ensures
        first_where(s, p) == Some(i),
{
    let c = choose|c: int| is_first(s, p, c);
    assert(is_first(s, p, c));
    if c < i {
        assert(!p(s[c]));
    }
    if i < c {
        assert(!p(s[i]));
    }
}

/// Without an element that satisfies `p` there is no first one.
pub proof fn lemma_first_where_none<T>(s: Seq<T>, p: spec_fn(T) -> bool)
    requires
        forall|j: int| 0 <= j < s.len() ==> !p(#[trigger] s[j]),
    ensures
        first_where(s, p) is None,
{
    if exists|i: int| is_first(s, p, i) {
        let c = choose|c: int| is_first(s, p, c);
        assert(is_first(s, p, c));
        assert(!p(s[c]));
    }
}

/// A list up to a place and that place make the list up to the next place.
pub proof fn lemma_take_next<T>(s: Seq<T>, i: int)
    requires
        0 <= i < s.len(),
    ensures
        s.take(i + 1) == s.take(i).push(s[i]),
{
    assert(s.take(i + 1) =~= s.take(i).push(s[i]));
}

/// A list up to its end is the list.
pub proof fn lemma_take_all<T>(s: Seq<T>)
    ensures
        s.take(s.len() as int) == s,
{
    assert(s.take(s.len() as int) =~= s);
}

/// The number of elements that satisfy `p`.
pub open spec fn count_where<T>(s: Seq<T>, p: spec_fn(T) -> bool) -> nat
    decreases s.len(),
{
    if s.len() == 0 {
        0
    } else {
        count_where(s.drop_last(), p) + (if p(s.last()) {
            1nat
        } else {
            0
        })
    }
}

/// What one element more adds to a count.
pub proof fn lemma_count_next<T>(s: Seq<T>, i: int, p: spec_fn(T) -> bool)
    requires
        0 <= i < s.len(),
    ensures
        count_where(s.take(i + 1), p) == count_where(s.take(i), p) + (if p(s[i]) {
            1nat
        } else {
            0
        }),
        count_where(s.take(i), p) <= i,
        s.take(s.len() as int) == s,
{
    assert(s.take(i + 1).drop_last() =~= s.take(i));
    lemma_count_bound(s.take(i), p);
    lemma_take_all(s);
}

/// A count is at most the length.
pub proof fn lemma_count_bound<T>(s: Seq<T>, p: spec_fn(T) -> bool)
    ensures
        count_where(s, p) <= s.len(),
    decreases s.len(),
{
    if s.len() > 0 {
        lemma_count_bound(s.drop_last(), p);
    }
}

/// Something is counted exactly when something satisfies `p`.
pub proof fn lemma_count_positive_where<T>(s: Seq<T>, p: spec_fn(T) -> bool)
    ensures
        count_where(s, p) > 0 <==> exists|i: int| 0 <= i < s.len() && p(#[trigger] s[i]),
    decreases s.len(),
{
    if s.len() > 0 {
        let front = s.drop_last();
        lemma_count_positive_where(front, p);
        if count_where(front, p) > 0 {
            let i = choose|i: int| 0 <= i < front.len() && p(#[trigger] front[i]);
            assert(p(s[i]));
        }
        if p(s.last()) {
            assert(p(s[s.len() - 1]));
        }
        if exists|i: int| 0 <= i < s.len() && p(#[trigger] s[i]) {
            let i = choose|i: int| 0 <= i < s.len() && p(#[trigger] s[i]);
            if i < front.len() {
                assert(p(front[i]));
            }
        }
    }
}

/// What a filter keeps of a list up to the next place.
pub proof fn lemma_filter_next<T>(s: Seq<T>, i: int, p: spec_fn(T) -> bool)
    requires
        0 <= i < s.len(),
    ensures
        s.take(i + 1).filter(p) == (if p(s[i]) {
            s.take(i).filter(p).push(s[i])
        } else {
            s.take(i).filter(p)
        }),
        s.take(s.len() as int) == s,
{
    lemma_take_next(s, i);
    crate::keyed::lemma_filter_push(s.take(i), s[i], p);
    lemma_take_all(s);
}

/// A filter keeps exactly the elements that satisfy `p`.
pub proof fn lemma_filter_members<T>(s: Seq<T>, p: spec_fn(T) -> bool)
    ensures
        forall|x: T| #[trigger] s.filter(p).contains(x) <==> s.contains(x) && p(x),
    decreases s.len(),
{
    reveal(Seq::filter);
    if s.len() > 0 {
        let front = s.drop_last();
        lemma_filter_members(front, p);
        assert forall|x: T| #[trigger] s.filter(p).contains(x) <==> s.contains(x) && p(x) by {
            if s.filter(p).contains(x) {
                let i = choose|i: int| 0 <= i < s.filter(p).len() && s.filter(p)[i] == x;
                if p(s.last()) && i == s.filter(p).len() - 1 {
                    assert(s[s.len() - 1] == x);
                } else {
                    assert(front.filter(p)[i] == x);
                    assert(front.filter(p).contains(x));
                    assert(front.contains(x));
                    let k = choose|k: int| 0 <= k < front.len() && front[k] == x;
                    assert(s[k] == x);
                }
            }
            if s.contains(x) && p(x) {
                let k = choose|k: int| 0 <= k < s.len() && s[k] == x;
                if k == s.len() - 1 {
                    assert(s.filter(p)[s.filter(p).len() - 1] == x);
                } else {
                    assert(front[k] == x);
                    assert(front.filter(p).contains(x));
                    let i = choose|i: int| 0 <= i < front.filter(p).len() && front.filter(p)[i] == x;
                    assert(s.filter(p)[i] == x);
                }
            }
        }
    } else {
        assert(s.filter(p) =~= Seq::<T>::empty());
    }
}

/// Nothing is left of a list in which nothing satisfies `p`.
pub proof fn lemma_filter_nothing<T>(s: Seq<T>, p: spec_fn(T) -> bool)
    requires
        forall|i: int| 0 <= i < s.len() ==> !p(#[trigger] s[i]),
    ensures
        s.filter(p) == Seq::<T>::empty(),
{
    lemma_filter_members(s, p);
    let kept = s.filter(p);
    if kept.len() > 0 {
        assert(kept.contains(kept[0]));
        let i = choose|i: int| 0 <= i < s.len() && s[i] == kept[0];
        assert(!p(s[i]));
    }
    assert(kept =~= Seq::<T>::empty());
}

/// A list of nothing, filtered.
pub proof fn lemma_filter_start<T>(s: Seq<T>, p: spec_fn(T) -> bool)
    ensures
        s.take(0).filter(p) == Seq::<T>::empty(),
        count_where(s.take(0), p) == 0,
        s.take(0) == Seq::<T>::empty(),
        s.take(s.len() as int) == s,
{
    reveal(Seq::filter);
    assert(s.take(0) =~= Seq::<T>::empty());
    assert(s.take(0).filter(p) =~= Seq::<T>::empty());
    lemma_take_all(s);
}

/// The sum of numbers, where a sum that does not fit wraps around.
pub open spec fn wrapped_sum(s: Seq<i32>) -> i32
    decreases s.len(),
{
    if s.len() == 0 {
        0
    } else {
        wrapped_sum(s.drop_last()).wrapping_add(s.last())
    }
}

/// The sum of numbers, where a sum that does not fit wraps around.
pub fn sum_of(list: &Vec<i32>) -> (r: i32)
    ensures
        r == wrapped_sum(list@),
{
    let mut total: i32 = 0;
    let mut i: usize = 0;
    while i < list.len()
        invariant
            i <= list@.len(),
            total == wrapped_sum(list@.take(i as int)),
        decreases list.len() - i,
    {
        assert(list@.take(i + 1).drop_last() =~= list@.take(i as int));
        total = total.wrapping_add(list[i]);
        i += 1;
    }
    proof {
        lemma_take_all(list@);
    }
    total
}

/// The greatest of numbers, zero where there are none.
pub open spec fn greatest(s: Seq<i32>) -> i32
    decreases s.len(),
{
    if s.len() == 0 {
        0
    } else if s.len() == 1 {
        s[0]
    } else if s.last() >= greatest(s.drop_last()) {
        s.last()
    } else {
        greatest(s.drop_last())
    }
}

/// The least of numbers, zero where there are none.
pub open spec fn least(s: Seq<i32>) -> i32
    decreases s.len(),
{
    if s.len() == 0 {
        0
    } else if s.len() == 1 {
        s[0]
    } else if s.last() < least(s.drop_last()) {
        s.last()
    } else {
        least(s.drop_last())
    }
}

/// The greatest of numbers, zero where there are none.
pub fn max_of(list: &Vec<i32>) -> (r: i32)
    ensures
        r == greatest(list@),
{
    let mut best: i32 = 0;
    let mut i: usize = 0;
    while i < list.len()
        invariant
            i <= list@.len(),
            best == greatest(list@.take(i as int)),
        decreases list.len() - i,
    {
        assert(list@.take(i + 1).drop_last() =~= list@.take(i as int));
        if i == 0 || list[i] >= best {
            best = list[i];
        }
        i += 1;
    }
    proof {
        lemma_take_all(list@);
    }
    best
}

/// The least of numbers, zero where there are none.
pub fn min_of(list: &Vec<i32>) -> (r: i32)
    ensures
        r == least(list@),
{
    let mut best: i32 = 0;
    let mut i: usize = 0;
    while i < list.len()
        invariant
            i <= list@.len(),
            best == least(list@.take(i as int)),
        decreases list.len() - i,
    {
        assert(list@.take(i + 1).drop_last() =~= list@.take(i as int));
        if i == 0 || list[i] < best {
            best = list[i];
        }
        i += 1;
    }
    proof {
        lemma_take_all(list@);
    }
    best
}

/// The greatest of numbers is one of them, and none is greater.
pub proof fn the_greatest_is_one_of_them(s: Seq<i32>)
    requires
        s.len() > 0,
    ensures
        s.contains(greatest(s)),
        forall|i: int| 0 <= i < s.len() ==> #[trigger] s[i] <= greatest(s),
    decreases s.len(),
{
    if s.len() == 1 {
        assert(s[0] == greatest(s));
    } else {
        let front = s.drop_last();
        the_greatest_is_one_of_them(front);
        let k = choose|k: int| 0 <= k < front.len() && front[k] == greatest(front);
        assert(s[k] == greatest(front));
        assert(s[s.len() - 1] == s.last());
        assert forall|i: int| 0 <= i < s.len() implies #[trigger] s[i] <= greatest(s) by {
            if i < front.len() {
                assert(front[i] <= greatest(front));
            }
        }
    }
}

/// The least of numbers is one of them, and none is less.
pub proof fn the_least_is_one_of_them(s: Seq<i32>)
    requires
        s.len() > 0,
    ensures
        s.contains(least(s)),
        forall|i: int| 0 <= i < s.len() ==> #[trigger] s[i] >= least(s),
    decreases s.len(),
{
    if s.len() == 1 {
        assert(s[0] == least(s));
    } else {
        let front = s.drop_last();
        the_least_is_one_of_them(front);
        let k = choose|k: int| 0 <= k < front.len() && front[k] == least(front);
        assert(s[k] == least(front));
        assert(s[s.len() - 1] == s.last());
        assert forall|i: int| 0 <= i < s.len() implies #[trigger] s[i] >= least(s) by {
            if i < front.len() {
                assert(front[i] >= least(front));
            }
        }
    }
}

/// The number of different elements.
pub open spec fn distinct<T>(s: Seq<T>) -> nat {
    s.to_set().len()
}

/// What one element more adds to the number of different elements.
pub proof fn lemma_distinct_next<T>(s: Seq<T>, i: int)
    requires
        0 <= i < s.len(),
    ensures
        distinct(s.take(i + 1)) == distinct(s.take(i)) + (if s.take(i).contains(s[i]) {
            0nat
        } else {
            1
        }),
        distinct(s.take(i)) <= i,
{
    broadcast use vstd::seq_lib::group_to_multiset_ensures;

    let a = s.take(i);
    let b = s.take(i + 1);
    a.lemma_cardinality_of_set();
    vstd::seq_lib::seq_to_set_is_finite(a);
    assert(s.take(i + 1).to_set() =~= a.to_set().insert(s[i])) by {
        lemma_take_next(s, i);
        assert forall|x: T| s.take(i + 1).to_set().contains(x) == a.to_set().insert(s[i]).contains(x) by {
            if a.contains(x) {
                let k = choose|k: int| 0 <= k < a.len() && a[k] == x;
                assert(s.take(i + 1)[k] == x);
            }
            if x == s[i] {
                assert(s.take(i + 1)[i] == x);
            }
            if b.contains(x) {
                let k = choose|k: int| 0 <= k < b.len() && b[k] == x;
                if k < i {
                    assert(a[k] == x);
                }
            }
        }
    }
    assert(a.to_set().contains(s[i]) == a.contains(s[i]));
}

/// The number of different elements of a list.
pub fn distinct_count<K: Key>(list: &Vec<K>) -> (r: usize)
    ensures
        r == distinct(seq_view(list@)),
{
    let ghost s = seq_view(list@);
    let mut n: usize = 0;
    let mut i: usize = 0;
    assert(s.take(0).to_set() =~= Set::empty());
    while i < list.len()
        invariant
            i <= list@.len(),
            s == seq_view(list@),
            n <= i,
            n == distinct(s.take(i as int)),
        decreases list.len() - i,
    {
        let mut seen: bool = false;
        let mut j: usize = 0;
        while j < i
            invariant
                j <= i < list@.len(),
                s == seq_view(list@),
                seen == exists|k: int| 0 <= k < j && #[trigger] s[k] == s[i as int],
            decreases i - j,
        {
            if list[j].same(&list[i]) {
                assert(s[j as int] == s[i as int]);
                seen = true;
            }
            j += 1;
        }
        proof {
            lemma_distinct_next(s, i as int);
            if seen {
                let k = choose|k: int| 0 <= k < i && #[trigger] s[k] == s[i as int];
                assert(s.take(i as int)[k] == s[i as int]);
            } else if s.take(i as int).contains(s[i as int]) {
                let k = choose|k: int| 0 <= k < i && s.take(i as int)[k] == s[i as int];
                assert(s[k] == s[i as int]);
            }
        }
        if !seen {
            n += 1;
        }
        i += 1;
    }
    proof {
        lemma_take_all(s);
    }
    n
}

/// A 32-bit unsigned number as a signed one, cut at the greatest.
pub open spec fn signed(n: u32) -> i32 {
    if n > i32::MAX {
        i32::MAX
    } else {
        n as i32
    }
}

/// A natural number as a signed one of 32 bits, cut at the greatest.
pub open spec fn capped(n: nat) -> i32 {
    if n > i32::MAX {
        i32::MAX
    } else {
        n as i32
    }
}

/// A 32-bit unsigned number as a signed one, cut at the greatest.
pub fn u32_to_i32_saturating(n: u32) -> (r: i32)
    ensures
        r == signed(n),
{
    if n > i32::MAX as u32 {
        i32::MAX
    } else {
        n as i32
    }
}

/// A size as a signed number, cut at the greatest.
pub fn usize_to_i32_saturating(n: usize) -> (r: i32)
    ensures
        r == capped(n as nat),
{
    if n > i32::MAX as usize {
        i32::MAX
    } else {
        n as i32
    }
}

/// Whether a list of objects or players holds one.
pub fn holds<K: Key>(list: &Vec<K>, x: &K) -> (r: bool)
    ensures
        r == seq_view(list@).contains(x@),
{
    let ghost s = seq_view(list@);
    let mut i: usize = 0;
    while i < list.len()
        invariant
            i <= list@.len(),
            s == seq_view(list@),
            forall|j: int| 0 <= j < i ==> #[trigger] s[j] != x@,
        decreases list.len() - i,
    {
        if list[i].same(x) {
            assert(s[i as int] == x@);
            return true;
        }
        i += 1;
    }
    false
}

} // verus!
