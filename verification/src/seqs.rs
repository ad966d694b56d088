//! Searching and filtering of vectors, stated over sequences.

use std::collections::HashMap;
use vstd::prelude::*;
use vstd::std_specs::hash::spec_keys_iter;
use vstd::std_specs::iter::IteratorSpec;

verus! {

/// `i` is the first index of `s` whose element satisfies `p`.
pub open spec fn is_first<T>(s: Seq<T>, p: spec_fn(T) -> bool, i: int) -> bool {
    &&& 0 <= i < s.len()
    &&& p(s[i])
    &&& forall|j: int| 0 <= j < i ==> !p(#[trigger] s[j])
}

/// The first index of `s` whose element satisfies `p`, if there is one.
pub open spec fn first_index<T>(s: Seq<T>, p: spec_fn(T) -> bool) -> Option<int> {
    if exists|i: int| is_first(s, p, i) {
        Some(choose|i: int| is_first(s, p, i))
    } else {
        None
    }
}

/// A position as a mathematical index.
pub open spec fn as_index(r: Option<usize>) -> Option<int> {
    match r {
        Some(i) => Some(i as int),
        None => None,
    }
}

/// Whether some element of `s` satisfies `p`.
pub open spec fn any<T>(s: Seq<T>, p: spec_fn(T) -> bool) -> bool {
    exists|i: int| 0 <= i < s.len() && p(#[trigger] s[i])
}

/// How many elements of `s` satisfy `p`.
pub open spec fn count<T>(s: Seq<T>, p: spec_fn(T) -> bool) -> nat {
    s.filter(p).len()
}

/// The sum of a measure over `s`.
pub open spec fn sum<T>(s: Seq<T>, f: spec_fn(T) -> int) -> int
    decreases s.len(),
{
    if s.len() == 0 {
        0
    } else {
        sum(s.drop_last(), f) + f(s.last())
    }
}

/// One more element adds its measure.
pub proof fn lemma_sum_step<T>(s: Seq<T>, f: spec_fn(T) -> int, i: int)
    requires
        0 <= i < s.len(),
    ensures
        sum(s.take(i + 1), f) == sum(s.take(i), f) + f(s[i]),
{
    assert(s.take(i + 1).drop_last() =~= s.take(i));
    assert(s.take(i + 1).last() == s[i]);
}

/// A part of a sum of what is not negative is not above the whole.
pub proof fn lemma_sum_part<T>(s: Seq<T>, f: spec_fn(T) -> int, i: int)
    requires
        0 <= i <= s.len(),
        forall|x: T| #[trigger] f(x) >= 0,
    ensures
        0 <= sum(s.take(i), f) <= sum(s, f),
    decreases s.len() - i,
{
    if i == s.len() {
        assert(s.take(i) =~= s);
        lemma_sum_nonnegative(s, f);
    } else {
        lemma_sum_part(s, f, i + 1);
        lemma_sum_step(s, f, i);
        lemma_sum_nonnegative(s.take(i), f);
    }
}

/// A sum of what is not negative is not negative.
pub proof fn lemma_sum_nonnegative<T>(s: Seq<T>, f: spec_fn(T) -> int)
    requires
        forall|x: T| #[trigger] f(x) >= 0,
    ensures
        sum(s, f) >= 0,
    decreases s.len(),
{
    if s.len() > 0 {
        lemma_sum_nonnegative(s.drop_last(), f);
    }
}

/// One more element counts if it satisfies the predicate.
pub proof fn lemma_count_step<T>(s: Seq<T>, p: spec_fn(T) -> bool, i: int)
    requires
        0 <= i < s.len(),
    ensures
        count(s.take(i + 1), p) == count(s.take(i), p) + (if p(s[i]) {
            1int
        } else {
            0
        }),
        count(s.take(i), p) <= i,
{
    reveal(Seq::filter);
    assert(s.take(i + 1).drop_last() =~= s.take(i));
    assert(s.take(i + 1).last() == s[i]);
    lemma_filter_members(s.take(i), p);
}

/// `i` is the last index of `s` whose element satisfies `p`.
pub open spec fn is_last<T>(s: Seq<T>, p: spec_fn(T) -> bool, i: int) -> bool {
    &&& 0 <= i < s.len()
    &&& p(s[i])
    &&& forall|j: int| i < j < s.len() ==> !p(#[trigger] s[j])
}

/// The last index of `s` whose element satisfies `p`, if there is one.
pub open spec fn last_index<T>(s: Seq<T>, p: spec_fn(T) -> bool) -> Option<int> {
    if exists|i: int| is_last(s, p, i) {
        Some(choose|i: int| is_last(s, p, i))
    } else {
        None
    }
}

/// A witness settles `last_index`.
pub proof fn lemma_last_index_is<T>(s: Seq<T>, p: spec_fn(T) -> bool, i: int)
    requires
        is_last(s, p, i),
    ensures
        last_index(s, p) == Some(i),
{
    let c = choose|k: int| is_last(s, p, k);
    assert(is_last(s, p, c));
    if c < i {
        assert(p(s[i]));
    }
    if i < c {
        assert(p(s[c]));
    }
}

/// A witness settles `first_index`.
pub proof fn lemma_first_index_is<T>(s: Seq<T>, p: spec_fn(T) -> bool, i: int)
    requires
        is_first(s, p, i),
    ensures
        first_index(s, p) == Some(i),
{
    let c = choose|k: int| is_first(s, p, k);
    assert(is_first(s, p, c));
    if c < i {
        assert(p(s[c]));
    }
    if i < c {
        assert(p(s[i]));
    }
}

/// No element satisfies the predicate: there is no first one.
pub proof fn lemma_first_index_none<T>(s: Seq<T>, p: spec_fn(T) -> bool)
    requires
        forall|i: int| 0 <= i < s.len() ==> !p(#[trigger] s[i]),
    ensures
        first_index(s, p) == None::<int>,
{
}

/// What `first_index` says of the sequence, in both outcomes.
pub proof fn lemma_first_index<T>(s: Seq<T>, p: spec_fn(T) -> bool)
    ensures
        match first_index(s, p) {
            Some(i) => is_first(s, p, i),
            None => forall|i: int| 0 <= i < s.len() ==> !p(#[trigger] s[i]),
        },
        first_index(s, p) is Some <==> any(s, p),
{
    if exists|i: int| is_first(s, p, i) {
        let c = choose|k: int| is_first(s, p, k);
        assert(p(s[c]));
    } else {
        assert forall|i: int| 0 <= i < s.len() implies !p(#[trigger] s[i]) by {
            if p(s[i]) {
                lemma_has_first(s, p, i);
            }
        }
    }
}

/// An element that satisfies the predicate has a first one at or before it.
proof fn lemma_has_first<T>(s: Seq<T>, p: spec_fn(T) -> bool, i: int)
    requires
        0 <= i < s.len(),
        p(s[i]),
    ensures
        exists|k: int| is_first(s, p, k),
    decreases i,
{
    if forall|j: int| 0 <= j < i ==> !p(#[trigger] s[j]) {
        assert(is_first(s, p, i));
    } else {
        let j = choose|j: int| 0 <= j < i && p(#[trigger] s[j]);
        lemma_has_first(s, p, j);
    }
}

/// A filter that everything passes keeps everything.
pub proof fn lemma_filter_all<T>(s: Seq<T>, p: spec_fn(T) -> bool)
    requires
        forall|i: int| 0 <= i < s.len() ==> p(#[trigger] s[i]),
    ensures
        s.filter(p) == s,
    decreases s.len(),
{
    reveal(Seq::filter);
    if s.len() > 0 {
        assert forall|i: int| 0 <= i < s.drop_last().len() implies p(#[trigger] s.drop_last()[i]) by {
            assert(s.drop_last()[i] == s[i]);
        }
        lemma_filter_all(s.drop_last(), p);
        assert(p(s[s.len() - 1]));
        assert(s.drop_last().push(s.last()) =~= s);
    }
}

/// What passes a filter is what was there and satisfies the predicate.
pub proof fn lemma_filter_members<T>(s: Seq<T>, p: spec_fn(T) -> bool)
    ensures
        forall|x: T| #[trigger] s.filter(p).contains(x) <==> s.contains(x) && p(x),
        s.filter(p).len() <= s.len(),
    decreases s.len(),
{
    reveal(Seq::filter);
    if s.len() > 0 {
        let init = s.drop_last();
        lemma_filter_members(init, p);
        assert forall|x: T| #[trigger] s.filter(p).contains(x) <==> s.contains(x) && p(x) by {
            if s.filter(p).contains(x) {
                let k = choose|k: int| 0 <= k < s.filter(p).len() && s.filter(p)[k] == x;
                if k < init.filter(p).len() {
                    assert(init.filter(p)[k] == x);
                    assert(init.filter(p).contains(x));
                    let j = choose|j: int| 0 <= j < init.len() && init[j] == x;
                    assert(s[j] == x);
                } else {
                    assert(s[s.len() - 1] == x);
                }
            }
            if s.contains(x) && p(x) {
                let j = choose|j: int| 0 <= j < s.len() && s[j] == x;
                if j < init.len() {
                    assert(init[j] == x);
                    assert(init.filter(p).contains(x));
                    let k = choose|k: int| 0 <= k < init.filter(p).len() && init.filter(p)[k] == x;
                    assert(s.filter(p)[k] == x);
                } else {
                    assert(s.filter(p)[s.filter(p).len() - 1] == x);
                }
            }
        }
    }
}

/// Position of the first element for which `f` answers true.
pub fn find<T, F: Fn(&T) -> bool>(v: &Vec<T>, f: F, Ghost(p): Ghost<spec_fn(T) -> bool>) -> (r: Option<usize>)
    requires
        forall|i: int| 0 <= i < v@.len() ==> f.requires((&#[trigger] v@[i],)),
        forall|x: T, b: bool| #[trigger] f.ensures((&x,), b) ==> b == p(x),
    ensures
        match r {
            Some(i) => is_first(v@, p, i as int),
            None => forall|i: int| 0 <= i < v@.len() ==> !p(#[trigger] v@[i]),
        },
        first_index(v@, p) == as_index(r),
{
    let mut i: usize = 0;
    while i < v.len()
        invariant
            0 <= i <= v@.len(),
            forall|k: int| 0 <= k < v@.len() ==> f.requires((&#[trigger] v@[k],)),
            forall|x: T, b: bool| #[trigger] f.ensures((&x,), b) ==> b == p(x),
            forall|k: int| 0 <= k < i ==> !p(#[trigger] v@[k]),
        decreases v@.len() - i,
    {
        if f(&v[i]) {
            proof {
                lemma_first_index_is(v@, p, i as int);
            }
            return Some(i);
        }
        i += 1;
    }
    None
}

/// Position of the last element for which `f` answers true.
pub fn find_last<T, F: Fn(&T) -> bool>(v: &Vec<T>, f: F, Ghost(p): Ghost<spec_fn(T) -> bool>) -> (r:
    Option<usize>)
    requires
        forall|i: int| 0 <= i < v@.len() ==> f.requires((&#[trigger] v@[i],)),
        forall|x: T, b: bool| #[trigger] f.ensures((&x,), b) ==> b == p(x),
    ensures
        match r {
            Some(i) => is_last(v@, p, i as int),
            None => forall|i: int| 0 <= i < v@.len() ==> !p(#[trigger] v@[i]),
        },
        last_index(v@, p) == as_index(r),
{
    let mut i: usize = v.len();
    while i > 0
        invariant
            0 <= i <= v@.len(),
            forall|k: int| 0 <= k < v@.len() ==> f.requires((&#[trigger] v@[k],)),
            forall|x: T, b: bool| #[trigger] f.ensures((&x,), b) ==> b == p(x),
            forall|k: int| i <= k < v@.len() ==> !p(#[trigger] v@[k]),
        decreases i,
    {
        i -= 1;
        if f(&v[i]) {
            proof {
                lemma_last_index_is(v@, p, i as int);
            }
            return Some(i);
        }
    }
    None
}

/// Drop every element for which `f` answers false, keeping the order.
pub fn retain<T, F: Fn(&T) -> bool>(v: &mut Vec<T>, f: F, Ghost(p): Ghost<spec_fn(T) -> bool>)
    requires
        forall|i: int| 0 <= i < old(v)@.len() ==> f.requires((&#[trigger] old(v)@[i],)),
        forall|x: T, b: bool| #[trigger] f.ensures((&x,), b) ==> b == p(x),
    ensures
        final(v)@ == old(v)@.filter(p),
{
    let ghost whole = v@;
    let ghost mut seen: int = 0;
    let mut i: usize = 0;
    proof {
        assert(whole.take(0).filter(p) =~= Seq::<T>::empty()) by {
            reveal(Seq::filter);
        }
    }
    while i < v.len()
        invariant
            0 <= seen <= whole.len(),
            0 <= i <= v@.len(),
            v@.len() - i == whole.len() - seen,
            v@.take(i as int) == whole.take(seen).filter(p),
            v@.skip(i as int) == whole.skip(seen),
            forall|k: int| 0 <= k < whole.len() ==> f.requires((&#[trigger] whole[k],)),
            forall|x: T, b: bool| #[trigger] f.ensures((&x,), b) ==> b == p(x),
        decreases v@.len() - i,
    {
        let ghost before = v@;
        assert(before[i as int] == before.skip(i as int)[0]);
        assert(whole[seen] == whole.skip(seen)[0]);
        proof {
            let step = whole.take(seen + 1);
            assert(step.drop_last() =~= whole.take(seen));
            assert(step.last() == whole[seen]);
            reveal(Seq::filter);
        }
        if f(&v[i]) {
            i += 1;
            assert(v@.take(i as int) =~= before.take(i - 1).push(whole[seen]));
            assert(v@.skip(i as int) =~= before.skip(i - 1).skip(1));
        } else {
            let _ = v.remove(i);
            assert(v@.take(i as int) =~= before.take(i as int));
            assert(v@.skip(i as int) =~= before.skip(i as int).skip(1));
        }
        assert(whole.skip(seen + 1) =~= whole.skip(seen).skip(1));
        proof {
            seen = seen + 1;
        }
    }
    proof {
        assert(v@.take(i as int) =~= v@);
        assert(whole.take(seen) =~= whole);
    }
}

// ─── Keys ───────────────────────────────────────────────────────────────────

/// The sequence names every key once, and nothing else.
pub open spec fn lists(keys: Seq<u64>, of: Set<u64>) -> bool {
    keys.no_duplicates() && forall|k: u64| #[trigger] keys.contains(k) <==> of.contains(k)
}

/// The keys of a table, in some order.
pub fn keys_of<V>(m: &HashMap<u64, V>) -> (r: Vec<u64>)
    ensures
        lists(r@, m@.dom()),
{
    broadcast use vstd::std_specs::hash::group_hash_axioms;

    let ghost all = spec_keys_iter(m).remaining();
    assert(all.unref().to_set() == m@.dom());
    let mut out: Vec<u64> = Vec::new();
    for key in it: m.keys()
        invariant
            it.seq() == all,
            all.no_duplicates(),
            out@.len() == it.index(),
            forall|j: int| 0 <= j < out@.len() ==> #[trigger] out@[j] == *all[j],
    {
        out.push(*key);
    }
    assert forall|k: u64| #[trigger] out@.contains(k) <==> m@.dom().contains(k) by {
        assert(all.unref().to_set().contains(k) <==> all.unref().contains(k));
        if all.unref().contains(k) {
            let j = choose|j: int| 0 <= j < all.unref().len() && all.unref()[j] == k;
            assert(out@[j] == k);
        }
        if out@.contains(k) {
            let j = choose|j: int| 0 <= j < out@.len() && out@[j] == k;
            assert(all.unref()[j] == k);
        }
    }
    out
}

} // verus!
