//! Lists of free address ranges: first fit, and giving ranges back.

use crate::num::greatest;
use crate::seqs::{first_index, lemma_first_index, lemma_first_index_is, sum};
use vstd::arithmetic::power2::pow2;
use vstd::prelude::*;

verus! {

/// The first address behind a range.
pub open spec fn end_of(r: (u64, u64)) -> int {
    r.0 + r.1
}

/// The ranges end where addresses end, come in order and do not overlap.
pub open spec fn ordered(ranges: Seq<(u64, u64)>) -> bool {
    &&& forall|i: int| 0 <= i < ranges.len() ==> end_of(#[trigger] ranges[i]) <= u64::MAX
    &&& forall|i: int, j: int|
        0 <= i < j < ranges.len() ==> (#[trigger] ranges[i]).0 < (#[trigger] ranges[j]).0 && end_of(
            ranges[i],
        ) <= ranges[j].0
}

/// There is room between any two ranges.
pub open spec fn separated(ranges: Seq<(u64, u64)>) -> bool {
    &&& forall|i: int| 0 <= i < ranges.len() ==> end_of(#[trigger] ranges[i]) <= u64::MAX
    &&& forall|i: int, j: int|
        0 <= i < j < ranges.len() ==> end_of(#[trigger] ranges[i]) < (#[trigger] ranges[j]).0
}

/// The ranges lie between two addresses.
pub open spec fn within(ranges: Seq<(u64, u64)>, low: int, high: int) -> bool {
    forall|i: int|
        0 <= i < ranges.len() ==> low <= (#[trigger] ranges[i]).0 && end_of(ranges[i]) <= high
}

/// The address is in one of the ranges.
pub open spec fn covers(ranges: Seq<(u64, u64)>, a: int) -> bool {
    exists|i: int| 0 <= i < ranges.len() && (#[trigger] ranges[i]).0 <= a < end_of(ranges[i])
}

/// No range starts or reaches into the `size` addresses from `start`.
pub open spec fn clear_of(ranges: Seq<(u64, u64)>, start: int, size: int) -> bool {
    forall|i: int|
        0 <= i < ranges.len() ==> {
            ||| (#[trigger] ranges[i]).0 < start && end_of(ranges[i]) <= start
            ||| start + size <= ranges[i].0
        }
}

/// The size of a range.
pub open spec fn size_of_range() -> spec_fn((u64, u64)) -> int {
    |r: (u64, u64)| r.1 as int
}

/// How many addresses the ranges hold together.
pub open spec fn total(ranges: Seq<(u64, u64)>) -> int {
    sum(ranges, size_of_range())
}

// ─── Alignment ──────────────────────────────────────────────────────────────

/// Whether a value can be snapped up.
pub open spec fn snap_fits(val: u64, align: u64) -> bool {
    align == 0 || val + align - 1 <= u64::MAX
}

/// A value with the alignment less one added and its low bits cleared. For a
/// power of two this is the least multiple of the alignment that is not below
/// the value.
pub open spec fn snapped(val: u64, align: u64) -> u64 {
    if align == 0 {
        val
    } else {
        ((val + (align - 1) as u64) as u64) & !((align - 1) as u64)
    }
}

/// The number is a power of two.
pub open spec fn power_of_two(n: u64) -> bool {
    exists|k: nat| k < 64 && n == #[trigger] pow2(k)
}

/// Snapping up never goes down, and stays below one alignment more.
pub proof fn lemma_snapped(val: u64, align: u64)
    requires
        snap_fits(val, align),
    ensures
        val <= snapped(val, align),
        align > 0 ==> snapped(val, align) < val + align,
        align <= 1 ==> snapped(val, align) == val,
{
    if align > 0 {
        let m = (align - 1) as u64;
        let s = (val + m) as u64;
        assert(s & !m <= s) by (bit_vector);
        assert(s & !m >= s - (s & m)) by (bit_vector);
        assert(s & m <= m) by (bit_vector);
        if align == 1 {
            assert(s & !m == s) by (bit_vector)
                requires
                    m == 0,
            ;
        }
    }
}

/// By a power of two, snapping up gives the least multiple that is not below
/// the value.
pub proof fn law_snap_up_rounds(val: u64, align: u64)
    requires
        snap_fits(val, align),
        power_of_two(align),
    ensures
        snapped(val, align) % align == 0,
        val <= snapped(val, align) < val + align,
{
    lemma_pow2_pos_all();
    lemma_snapped(val, align);
    let k = choose|k: nat| k < 64 && align == #[trigger] pow2(k);
    let m = (align - 1) as u64;
    let s = (val + m) as u64;
    let r = s & !m;
    assert(r & m == 0) by (bit_vector)
        requires
            r == s & !m,
    ;
    vstd::bits::lemma_u64_low_bits_mask_is_mod(r, k);
}

/// Powers of two are positive.
proof fn lemma_pow2_pos_all()
    ensures
        forall|k: nat| #[trigger] pow2(k) > 0,
{
    assert forall|k: nat| #[trigger] pow2(k) > 0 by {
        vstd::arithmetic::power2::lemma_pow2_pos(k);
    }
}

/// The least aligned value that is not below `val`; no change where the
/// alignment is zero.
pub fn snap_up(val: u64, align: u64) -> (r: u64)
    requires
        snap_fits(val, align),
    ensures
        r == snapped(val, align),
{
    if align == 0 {
        return val;
    }
    (val + (align - 1)) & !(align - 1)
}

// ─── First fit ──────────────────────────────────────────────────────────────

/// Whether `size` aligned bytes fit into a range.
pub open spec fn fits(size: u64, align: u64) -> spec_fn((u64, u64)) -> bool {
    |r: (u64, u64)| snap_fits(r.0, align) && snapped(r.0, align) + size <= end_of(r)
}

/// The ranges without the `size` addresses from `start`, which lie in the range
/// at `i`.
pub open spec fn carved(ranges: Seq<(u64, u64)>, i: int, start: u64, size: u64) -> Seq<(u64, u64)> {
    let r = ranges[i];
    let before = (start - r.0) as u64;
    let after = (end_of(r) - start - size) as u64;
    if before == 0 {
        if after == 0 {
            ranges.remove(i)
        } else {
            ranges.update(i, ((start + size) as u64, after))
        }
    } else if after == 0 {
        ranges.update(i, (r.0, before))
    } else {
        ranges.update(i, (r.0, before)).insert(i + 1, ((start + size) as u64, after))
    }
}

/// First fit: where the first range that can hold `size` aligned bytes lies, and
/// what is free afterwards.
pub open spec fn taking(ranges: Seq<(u64, u64)>, size: u64, align: u64) -> (Option<u64>, Seq<(u64, u64)>) {
    match first_index(ranges, fits(size, align)) {
        None => (None, ranges),
        Some(i) => {
            let start = snapped(ranges[i].0, align);
            (Some(start), carved(ranges, i, start, size))
        },
    }
}

/// A range that holds all of the `size` addresses from `start`.
pub open spec fn holds(start: u64, size: u64) -> spec_fn((u64, u64)) -> bool {
    |r: (u64, u64)| r.0 <= start && start + size <= end_of(r)
}

/// The ranges without given addresses, where one range holds them all.
pub open spec fn removing(ranges: Seq<(u64, u64)>, start: u64, size: u64) -> Seq<(u64, u64)> {
    if size == 0 {
        ranges
    } else {
        match first_index(ranges, holds(start, size)) {
            Some(i) => carved(ranges, i, start, size),
            None => ranges,
        }
    }
}

/// Replacing one element changes a sum by the difference.
proof fn lemma_total_update(ranges: Seq<(u64, u64)>, i: int, r: (u64, u64))
    requires
        0 <= i < ranges.len(),
    ensures
        total(ranges.update(i, r)) == total(ranges) - ranges[i].1 + r.1,
    decreases ranges.len(),
{
    let init = ranges.drop_last();
    if i == ranges.len() - 1 {
        assert(ranges.update(i, r).drop_last() =~= init);
    } else {
        lemma_total_update(init, i, r);
        assert(ranges.update(i, r).drop_last() =~= init.update(i, r));
        assert(ranges.update(i, r).last() == ranges.last());
    }
}

/// One more element adds to a sum, wherever it goes.
proof fn lemma_total_insert(ranges: Seq<(u64, u64)>, i: int, r: (u64, u64))
    requires
        0 <= i <= ranges.len(),
    ensures
        total(ranges.insert(i, r)) == total(ranges) + r.1,
    decreases ranges.len(),
{
    let longer = ranges.insert(i, r);
    if i == ranges.len() {
        assert(longer.drop_last() =~= ranges);
        assert(longer.last() == r);
    } else {
        let init = ranges.drop_last();
        lemma_total_insert(init, i, r);
        assert(longer.drop_last() =~= init.insert(i, r));
        assert(longer.last() == ranges.last());
    }
}

/// One element less takes from a sum.
proof fn lemma_total_remove(ranges: Seq<(u64, u64)>, i: int)
    requires
        0 <= i < ranges.len(),
    ensures
        total(ranges.remove(i)) == total(ranges) - ranges[i].1,
{
    assert(ranges.remove(i).insert(i, ranges[i]) =~= ranges);
    lemma_total_insert(ranges.remove(i), i, ranges[i]);
}

/// Ordered ranges together hold no more than the addresses they lie among.
pub proof fn lemma_total_bounded(ranges: Seq<(u64, u64)>, low: int, high: int)
    requires
        ordered(ranges),
        within(ranges, low, high),
        low <= high,
    ensures
        0 <= total(ranges) <= high - low,
    decreases ranges.len(),
{
    if ranges.len() > 0 {
        let init = ranges.drop_last();
        let last = ranges[ranges.len() - 1];
        assert(last == ranges.last());
        assert forall|i: int| 0 <= i < init.len() implies low <= (#[trigger] init[i]).0 && end_of(
            init[i],
        ) <= last.0 by {
            assert(init[i] == ranges[i]);
        }
        assert forall|i: int| 0 <= i < init.len() implies end_of(#[trigger] init[i]) <= u64::MAX by {
            assert(init[i] == ranges[i]);
        }
        assert forall|i: int, j: int| 0 <= i < j < init.len() implies (#[trigger] init[i]).0 < (
        #[trigger] init[j]).0 && end_of(init[i]) <= init[j].0 by {
            assert(init[i] == ranges[i] && init[j] == ranges[j]);
        }
        lemma_total_bounded(init, low, last.0 as int);
    }
}

/// How much of a range is left in front of a carved part.
spec fn left_before(ranges: Seq<(u64, u64)>, i: int, start: u64) -> u64 {
    (start - ranges[i].0) as u64
}

/// How much of a range is left behind a carved part.
spec fn left_after(ranges: Seq<(u64, u64)>, i: int, start: u64, size: u64) -> u64 {
    (end_of(ranges[i]) - start - size) as u64
}

/// How many more ranges there are after carving.
spec fn carved_more(ranges: Seq<(u64, u64)>, i: int, start: u64, size: u64) -> int {
    (if left_before(ranges, i, start) > 0 {
        1int
    } else {
        0
    }) + (if left_after(ranges, i, start, size) > 0 {
        1int
    } else {
        0
    }) - 1
}

/// What can be carved.
spec fn can_carve(ranges: Seq<(u64, u64)>, i: int, start: u64, size: u64) -> bool {
    &&& ordered(ranges)
    &&& 0 <= i < ranges.len()
    &&& ranges[i].0 <= start
    &&& start + size <= end_of(ranges[i])
}

/// Where the parts of a list come from after carving.
proof fn lemma_carved_parts(ranges: Seq<(u64, u64)>, i: int, start: u64, size: u64)
    requires
        can_carve(ranges, i, start, size),
    ensures
        ({
            let c = carved(ranges, i, start, size);
            let d = carved_more(ranges, i, start, size);
            let before = left_before(ranges, i, start);
            let after = left_after(ranges, i, start, size);
            let w = if before > 0 {
                i + 1
            } else {
                i
            };
            &&& c.len() == ranges.len() + d
            &&& forall|k: int| 0 <= k < i ==> #[trigger] c[k] == ranges[k]
            &&& forall|k: int| i + d < k < c.len() ==> #[trigger] c[k] == ranges[k - d]
            &&& before > 0 ==> c[i] == (ranges[i].0, before)
            &&& after > 0 ==> c[w] == ((start + size) as u64, after)
            &&& total(c) == total(ranges) - size
        }),
{
    let r = ranges[i];
    let before = left_before(ranges, i, start);
    let after = left_after(ranges, i, start, size);
    if before == 0 {
        if after == 0 {
            lemma_total_remove(ranges, i);
        } else {
            lemma_total_update(ranges, i, ((start + size) as u64, after));
        }
    } else if after == 0 {
        lemma_total_update(ranges, i, (r.0, before));
    } else {
        lemma_total_update(ranges, i, (r.0, before));
        lemma_total_insert(ranges.update(i, (r.0, before)), i + 1, ((start + size) as u64, after));
    }
}

/// Each range after carving lies in a range from before, apart from what was
/// carved.
proof fn lemma_carved_origin(ranges: Seq<(u64, u64)>, i: int, start: u64, size: u64, k: int) -> (o:
    int)
    requires
        can_carve(ranges, i, start, size),
        0 <= k < carved(ranges, i, start, size).len(),
    ensures
        0 <= o < ranges.len(),
        ranges[o].0 <= carved(ranges, i, start, size)[k].0,
        end_of(carved(ranges, i, start, size)[k]) <= end_of(ranges[o]),
        o != i ==> carved(ranges, i, start, size)[k] == ranges[o],
        o == i ==> {
            ||| carved(ranges, i, start, size)[k].0 < start && end_of(
                carved(ranges, i, start, size)[k],
            ) == start
            ||| carved(ranges, i, start, size)[k].0 == start + size && carved(
                ranges,
                i,
                start,
                size,
            )[k].1 > 0
        },
        o < i ==> k == o,
        o > i ==> k == o + carved_more(ranges, i, start, size),
{
    lemma_carved_parts(ranges, i, start, size);
    let d = carved_more(ranges, i, start, size);
    if k < i {
        k
    } else if k > i + d {
        k - d
    } else {
        i
    }
}

/// Carving keeps the list in order.
proof fn lemma_carved_ordered(ranges: Seq<(u64, u64)>, i: int, start: u64, size: u64)
    requires
        can_carve(ranges, i, start, size),
    ensures
        ordered(carved(ranges, i, start, size)),
{
    lemma_carved_parts(ranges, i, start, size);
    let c = carved(ranges, i, start, size);
    let d = carved_more(ranges, i, start, size);
    assert forall|k: int| 0 <= k < c.len() implies end_of(#[trigger] c[k]) <= u64::MAX by {
        let o = lemma_carved_origin(ranges, i, start, size, k);
        assert(end_of(ranges[o]) <= u64::MAX);
    }
    assert forall|j: int, k: int| 0 <= j < k < c.len() implies (#[trigger] c[j]).0 < (
    #[trigger] c[k]).0 && end_of(c[j]) <= c[k].0 by {
        let a = lemma_carved_origin(ranges, i, start, size, j);
        let b = lemma_carved_origin(ranges, i, start, size, k);
        if a < b {
            assert(ranges[a].0 < ranges[b].0 && end_of(ranges[a]) <= ranges[b].0);
            assert(c[j].0 < ranges[b].0) by {
                if a == i {
                    assert(c[j].1 > 0);
                }
            }
        } else {
            assert(a == i && b == i);
        }
    }
}

/// Carving takes exactly the carved addresses.
proof fn lemma_carved_covers(ranges: Seq<(u64, u64)>, i: int, start: u64, size: u64, a: int)
    requires
        can_carve(ranges, i, start, size),
    ensures
        covers(carved(ranges, i, start, size), a) <==> covers(ranges, a) && !(start <= a < start
            + size),
{
    lemma_carved_parts(ranges, i, start, size);
    let c = carved(ranges, i, start, size);
    let d = carved_more(ranges, i, start, size);
    if covers(c, a) {
        let k = choose|k: int| 0 <= k < c.len() && (#[trigger] c[k]).0 <= a < end_of(c[k]);
        let o = lemma_carved_origin(ranges, i, start, size, k);
        assert(ranges[o].0 <= a < end_of(ranges[o]));
        if o < i {
            assert(end_of(ranges[o]) <= ranges[i].0);
        } else if o > i {
            assert(end_of(ranges[i]) <= ranges[o].0);
        }
    }
    if covers(ranges, a) && !(start <= a < start + size) {
        let k = choose|k: int|
            0 <= k < ranges.len() && (#[trigger] ranges[k]).0 <= a < end_of(ranges[k]);
        if k < i {
            assert(c[k] == ranges[k]);
        } else if k > i {
            assert(c[k + d] == ranges[k]);
        } else if a < start {
            assert(c[i].0 <= a < end_of(c[i]));
        } else {
            let w = if left_before(ranges, i, start) > 0 {
                i + 1
            } else {
                i
            };
            assert(c[w].0 <= a < end_of(c[w]));
        }
    }
}

/// Carving takes exactly the carved addresses, and keeps the list in order.
pub proof fn lemma_carved(ranges: Seq<(u64, u64)>, i: int, start: u64, size: u64)
    requires
        ordered(ranges),
        0 <= i < ranges.len(),
        ranges[i].0 <= start,
        start + size <= end_of(ranges[i]),
    ensures
        ordered(carved(ranges, i, start, size)),
        total(carved(ranges, i, start, size)) == total(ranges) - size,
        clear_of(carved(ranges, i, start, size), start as int, size as int),
        forall|a: int| #[trigger]
            covers(carved(ranges, i, start, size), a) <==> covers(ranges, a) && !(start <= a < start
                + size),
        forall|low: int, high: int| #[trigger]
            within(ranges, low, high) ==> within(carved(ranges, i, start, size), low, high),
        forall|s: int, n: int|
            n >= 0 && #[trigger] clear_of(ranges, s, n) ==> clear_of(
                carved(ranges, i, start, size),
                s,
                n,
            ),
{
    let c = carved(ranges, i, start, size);
    lemma_carved_parts(ranges, i, start, size);
    lemma_carved_ordered(ranges, i, start, size);
    assert forall|a: int| #[trigger] covers(c, a) <==> covers(ranges, a) && !(start <= a < start
        + size) by {
        lemma_carved_covers(ranges, i, start, size, a);
    }
    assert forall|k: int| 0 <= k < c.len() implies {
        ||| (#[trigger] c[k]).0 < start && end_of(c[k]) <= start
        ||| start + size <= c[k].0
    } by {
        let o = lemma_carved_origin(ranges, i, start, size, k);
        if o < i {
            assert(ranges[o].0 < ranges[i].0 && end_of(ranges[o]) <= ranges[i].0);
        } else if o > i {
            assert(end_of(ranges[i]) <= ranges[o].0);
        }
    }
    assert forall|low: int, high: int| #[trigger] within(ranges, low, high) implies within(
        c,
        low,
        high,
    ) by {
        assert forall|k: int| 0 <= k < c.len() implies low <= (#[trigger] c[k]).0 && end_of(c[k])
            <= high by {
            let o = lemma_carved_origin(ranges, i, start, size, k);
            assert(low <= ranges[o].0 && end_of(ranges[o]) <= high);
        }
    }
    assert forall|s: int, n: int| n >= 0 && #[trigger] clear_of(ranges, s, n) implies clear_of(
        c,
        s,
        n,
    ) by {
        assert forall|k: int| 0 <= k < c.len() implies {
            ||| (#[trigger] c[k]).0 < s && end_of(c[k]) <= s
            ||| s + n <= c[k].0
        } by {
            let o = lemma_carved_origin(ranges, i, start, size, k);
            assert(ranges[o].0 < s && end_of(ranges[o]) <= s || s + n <= ranges[o].0);
            if o == i && end_of(ranges[o]) <= s {
                assert(c[k].1 > 0);
            }
        }
    }
}

// ─── Giving back ────────────────────────────────────────────────────────────

/// A range that starts at or behind an address.
pub open spec fn starts_from(a: u64) -> spec_fn((u64, u64)) -> bool {
    |r: (u64, u64)| r.0 >= a
}

/// Where a range that starts at an address belongs.
pub open spec fn place_of(ranges: Seq<(u64, u64)>, a: u64) -> int {
    match first_index(ranges, starts_from(a)) {
        Some(i) => i,
        None => ranges.len() as int,
    }
}

/// The addresses given back together with the ranges that they touch.
pub open spec fn joined(ranges: Seq<(u64, u64)>, start: u64, size: u64) -> (u64, u64) {
    let p = place_of(ranges, start);
    let left = p > 0 && end_of(ranges[p - 1]) == start;
    let right = p < ranges.len() && ranges[p].0 == start + size;
    let low = if left {
        ranges[p - 1].0
    } else {
        start
    };
    let high = if right {
        end_of(ranges[p])
    } else {
        start + size
    };
    (low, (high - low) as u64)
}

/// The ranges with `size` more addresses from `start`, joined with the ranges
/// that they touch.
pub open spec fn given(ranges: Seq<(u64, u64)>, start: u64, size: u64) -> Seq<(u64, u64)> {
    if size == 0 {
        ranges
    } else {
        let p = place_of(ranges, start);
        let left = p > 0 && end_of(ranges[p - 1]) == start;
        let right = p < ranges.len() && ranges[p].0 == start + size;
        if left && right {
            ranges.remove(p).update(p - 1, joined(ranges, start, size))
        } else if left {
            ranges.update(p - 1, joined(ranges, start, size))
        } else if right {
            ranges.update(p, joined(ranges, start, size))
        } else {
            ranges.insert(p, (start, size))
        }
    }
}

/// What stands around the place of an address.
pub proof fn lemma_place(ranges: Seq<(u64, u64)>, a: u64)
    ensures
        0 <= place_of(ranges, a) <= ranges.len(),
        forall|i: int| 0 <= i < place_of(ranges, a) ==> (#[trigger] ranges[i]).0 < a,
        place_of(ranges, a) < ranges.len() ==> ranges[place_of(ranges, a)].0 >= a,
{
    lemma_first_index(ranges, starts_from(a));
}

/// The first of the ranges that a range given back is joined with, or its own
/// place.
pub open spec fn joined_at(ranges: Seq<(u64, u64)>, start: u64) -> int {
    let p = place_of(ranges, start);
    if p > 0 && end_of(ranges[p - 1]) == start {
        p - 1
    } else {
        p
    }
}

/// Where the parts of a list come from after a range was given back.
proof fn lemma_given_parts(ranges: Seq<(u64, u64)>, start: u64, size: u64)
    requires
        ordered(ranges),
        clear_of(ranges, start as int, size as int),
        start + size <= u64::MAX,
        size > 0,
    ensures
        ({
            let g = given(ranges, start, size);
            let q = joined_at(ranges, start);
            let d: int = g.len() - ranges.len();
            &&& 0 <= q < g.len()
            &&& q - d + 1 >= q
            &&& g[q] == joined(ranges, start, size)
            &&& g[q].0 <= start
            &&& start + size <= end_of(g[q]) <= u64::MAX
            &&& forall|k: int| 0 <= k < q ==> #[trigger] g[k] == ranges[k]
            &&& forall|k: int| q < k < g.len() ==> #[trigger] g[k] == ranges[k - d]
            &&& forall|k: int| 0 <= k < q ==> end_of(#[trigger] ranges[k]) <= g[q].0
            &&& forall|k: int| 0 <= k < q ==> (#[trigger] ranges[k]).0 < g[q].0
            &&& forall|k: int|
                q - d < k < ranges.len() ==> end_of(g[q]) <= (#[trigger] ranges[k]).0
            &&& forall|k: int|
                q <= k <= q - d ==> {
                    ||| g[q].0 == (#[trigger] ranges[k]).0 && end_of(ranges[k]) == start
                    ||| ranges[k].0 == start + size && end_of(ranges[k]) == end_of(g[q])
                }
            &&& start > g[q].0 ==> q <= q - d && ranges[q].0 == g[q].0 && end_of(ranges[q]) == start
            &&& start + size < end_of(g[q]) ==> q <= q - d && ranges[q - d].0 == start + size
                && end_of(ranges[q - d]) == end_of(g[q])
        }),
{
    lemma_place(ranges, start);
    let p = place_of(ranges, start);
    let n = ranges.len() as int;
    assert forall|i: int| 0 <= i < p implies end_of(#[trigger] ranges[i]) <= start by {
        assert(ranges[i].0 < start);
    }
    assert forall|i: int| p <= i < n implies start + size <= (#[trigger] ranges[i]).0 by {
        assert(ranges[p].0 >= start);
        if i > p {
            assert(ranges[p].0 < ranges[i].0);
        }
    }
}

/// Giving back keeps the list in order.
proof fn lemma_given_ordered(ranges: Seq<(u64, u64)>, start: u64, size: u64)
    requires
        ordered(ranges),
        clear_of(ranges, start as int, size as int),
        start + size <= u64::MAX,
        size > 0,
    ensures
        ordered(given(ranges, start, size)),
{
    lemma_given_parts(ranges, start, size);
    let g = given(ranges, start, size);
    let q = joined_at(ranges, start);
    let d: int = g.len() - ranges.len();
    assert forall|j: int, k: int| 0 <= j < k < g.len() implies (#[trigger] g[j]).0 < (
    #[trigger] g[k]).0 && end_of(g[j]) <= g[k].0 by {
        if j < q {
            assert(g[j] == ranges[j]);
            if k > q {
                assert(g[k] == ranges[k - d]);
            } else if k < q {
                assert(g[k] == ranges[k]);
            }
        } else if j == q {
            assert(g[k] == ranges[k - d]);
        } else {
            assert(g[j] == ranges[j - d]);
            assert(g[k] == ranges[k - d]);
        }
    }
    assert forall|k: int| 0 <= k < g.len() implies end_of(#[trigger] g[k]) <= u64::MAX by {
        if k < q {
            assert(g[k] == ranges[k]);
        } else if k > q {
            assert(g[k] == ranges[k - d]);
        }
    }
}

/// Giving back adds exactly the addresses given.
proof fn lemma_given_covers(ranges: Seq<(u64, u64)>, start: u64, size: u64, a: int)
    requires
        ordered(ranges),
        clear_of(ranges, start as int, size as int),
        start + size <= u64::MAX,
        size > 0,
    ensures
        covers(given(ranges, start, size), a) <==> covers(ranges, a) || start <= a < start + size,
{
    lemma_given_parts(ranges, start, size);
    let g = given(ranges, start, size);
    let q = joined_at(ranges, start);
    let d: int = g.len() - ranges.len();
    if covers(g, a) {
        let k = choose|k: int| 0 <= k < g.len() && (#[trigger] g[k]).0 <= a < end_of(g[k]);
        if k < q {
            assert(g[k] == ranges[k]);
        } else if k > q {
            assert(g[k] == ranges[k - d]);
        } else if a < start {
            assert(ranges[q].0 <= a < end_of(ranges[q]));
        } else if a >= start + size {
            assert(ranges[q - d].0 <= a < end_of(ranges[q - d]));
        }
    }
    if start <= a < start + size {
        assert(g[q].0 <= a < end_of(g[q]));
    } else if covers(ranges, a) {
        let k = choose|k: int|
            0 <= k < ranges.len() && (#[trigger] ranges[k]).0 <= a < end_of(ranges[k]);
        if k < q {
            assert(g[k] == ranges[k]);
        } else if k > q - d {
            assert(g[k + d] == ranges[k]);
        } else {
            assert(g[q].0 <= a < end_of(g[q]));
        }
    }
}

/// Giving back reaches into no other addresses.
pub proof fn lemma_given_clear(
    ranges: Seq<(u64, u64)>,
    start: u64,
    size: u64,
    s: int,
    n: int,
)
    requires
        ordered(ranges),
        clear_of(ranges, start as int, size as int),
        start + size <= u64::MAX,
        clear_of(ranges, s, n),
        n > 0,
        s + n <= start || start + size <= s,
    ensures
        clear_of(given(ranges, start, size), s, n),
{
    if size > 0 {
        lemma_given_parts(ranges, start, size);
        let g = given(ranges, start, size);
        let q = joined_at(ranges, start);
        let d: int = g.len() - ranges.len();
        assert forall|k: int| 0 <= k < g.len() implies {
            ||| (#[trigger] g[k]).0 < s && end_of(g[k]) <= s
            ||| s + n <= g[k].0
        } by {
            if k < q {
                assert(g[k] == ranges[k]);
            } else if k > q {
                assert(g[k] == ranges[k - d]);
            } else if s + n <= start {
                if start > g[q].0 {
                    assert(ranges[q].0 == g[q].0);
                }
            } else if start + size < end_of(g[q]) {
                assert(ranges[q - d].0 == start + size);
            }
        }
    }
}

/// Giving back adds to the number of addresses.
proof fn lemma_given_total(ranges: Seq<(u64, u64)>, start: u64, size: u64)
    requires
        ordered(ranges),
        clear_of(ranges, start as int, size as int),
        start + size <= u64::MAX,
        size > 0,
    ensures
        total(given(ranges, start, size)) == total(ranges) + size,
{
    lemma_given_parts(ranges, start, size);
    lemma_place(ranges, start);
    let p = place_of(ranges, start);
    let left = p > 0 && end_of(ranges[p - 1]) == start;
    let right = p < ranges.len() && ranges[p].0 == start + size;
    let joined = joined(ranges, start, size);
    if left && right {
        lemma_total_remove(ranges, p);
        lemma_total_update(ranges.remove(p), p - 1, joined);
    } else if left {
        lemma_total_update(ranges, p - 1, joined);
    } else if right {
        lemma_total_update(ranges, p, joined);
    } else {
        lemma_total_insert(ranges, p, (start, size));
    }
}

/// Giving back adds exactly the addresses given, and keeps the list in order.
pub proof fn lemma_given(ranges: Seq<(u64, u64)>, start: u64, size: u64)
    requires
        ordered(ranges),
        can_give(ranges, start, size),
    ensures
        ordered(given(ranges, start, size)),
        total(given(ranges, start, size)) == total(ranges) + size,
        forall|a: int| #[trigger]
            covers(given(ranges, start, size), a) <==> covers(ranges, a) || start <= a < start
                + size,
        forall|low: int, high: int|
            low <= start && start + size <= high && #[trigger] within(ranges, low, high) ==> within(
                given(ranges, start, size),
                low,
                high,
            ),
{
    if size > 0 {
        lemma_given_ordered(ranges, start, size);
        lemma_given_total(ranges, start, size);
        assert forall|a: int| #[trigger]
            covers(given(ranges, start, size), a) <==> covers(ranges, a) || start <= a < start
                + size by {
            lemma_given_covers(ranges, start, size, a);
        }
        lemma_given_parts(ranges, start, size);
        let g = given(ranges, start, size);
        let q = joined_at(ranges, start);
        let d: int = g.len() - ranges.len();
        assert forall|low: int, high: int|
            low <= start && start + size <= high && #[trigger] within(ranges, low, high) implies within(
            g,
            low,
            high,
        ) by {
            assert forall|k: int| 0 <= k < g.len() implies low <= (#[trigger] g[k]).0 && end_of(
                g[k],
            ) <= high by {
                if k < q {
                    assert(g[k] == ranges[k]);
                } else if k > q {
                    assert(g[k] == ranges[k - d]);
                }
            }
        }
    }
}

/// Putting a range in its place, without joining it, adds exactly its addresses
/// and keeps the list in order.
pub proof fn lemma_inserted(ranges: Seq<(u64, u64)>, start: u64, size: u64)
    requires
        ordered(ranges),
        can_give(ranges, start, size),
        size > 0,
    ensures
        ordered(ranges.insert(place_of(ranges, start), (start, size))),
        total(ranges.insert(place_of(ranges, start), (start, size))) == total(ranges) + size,
        forall|a: int| #[trigger]
            covers(ranges.insert(place_of(ranges, start), (start, size)), a) <==> covers(ranges, a)
                || start <= a < start + size,
        forall|low: int, high: int|
            low <= start && start + size <= high && #[trigger] within(ranges, low, high) ==> within(
                ranges.insert(place_of(ranges, start), (start, size)),
                low,
                high,
            ),
{
    lemma_place(ranges, start);
    let p = place_of(ranges, start);
    let g = ranges.insert(p, (start, size));
    lemma_total_insert(ranges, p, (start, size));
    assert forall|i: int| p <= i < ranges.len() implies start + size <= (#[trigger] ranges[i]).0 by {
        assert(ranges[p].0 >= start);
        if i > p {
            assert(ranges[p].0 < ranges[i].0);
        }
    }
    assert forall|j: int, k: int| 0 <= j < k < g.len() implies (#[trigger] g[j]).0 < (
    #[trigger] g[k]).0 && end_of(g[j]) <= g[k].0 by {
        if j < p {
            assert(g[j] == ranges[j]);
        } else if j > p {
            assert(g[j] == ranges[j - 1]);
        }
        if k < p {
            assert(g[k] == ranges[k]);
        } else if k > p {
            assert(g[k] == ranges[k - 1]);
        }
    }
    assert forall|a: int| #[trigger] covers(g, a) <==> covers(ranges, a) || start <= a < start
        + size by {
        if covers(g, a) {
            let k = choose|k: int| 0 <= k < g.len() && (#[trigger] g[k]).0 <= a < end_of(g[k]);
            if k < p {
                assert(g[k] == ranges[k]);
            } else if k > p {
                assert(g[k] == ranges[k - 1]);
            }
        }
        if start <= a < start + size {
            assert(g[p].0 <= a < end_of(g[p]));
        } else if covers(ranges, a) {
            let k = choose|k: int|
                0 <= k < ranges.len() && (#[trigger] ranges[k]).0 <= a < end_of(ranges[k]);
            if k < p {
                assert(g[k] == ranges[k]);
            } else {
                assert(g[k + 1] == ranges[k]);
            }
        }
    }
}

// ─── Doing it ───────────────────────────────────────────────────────────────

/// Take `size` aligned bytes by first fit.
pub fn take(ranges: &mut Vec<(u64, u64)>, size: u64, align: u64) -> (r: Option<u64>)
    requires
        ordered(old(ranges)@),
    ensures
        (r, final(ranges)@) == taking(old(ranges)@, size, align),
{
    let ghost before = ranges@;
    let mut idx: usize = 0;
    while idx < ranges.len()
        invariant
            before == old(ranges)@,
            ranges@ == before,
            ordered(before),
            idx <= before.len(),
            forall|k: int| 0 <= k < idx ==> !fits(size, align)(#[trigger] before[k]),
        decreases before.len() - idx,
    {
        let (start, room) = ranges[idx];
        assert(end_of(before[idx as int]) <= u64::MAX);
        let end = start + room;
        let fitting = if align == 0 {
            Some(start)
        } else {
            match start.checked_add(align - 1) {
                Some(_) => Some(snap_up(start, align)),
                None => None,
            }
        };
        if let Some(aligned) = fitting {
            proof {
                lemma_snapped(start, align);
            }
            if aligned <= end && size <= end - aligned {
                proof {
                    assert(fits(size, align)(before[idx as int]));
                    lemma_first_index_is(before, fits(size, align), idx as int);
                }
                carve(ranges, idx, aligned, size);
                return Some(aligned);
            }
        }
        idx += 1;
    }
    proof {
        crate::seqs::lemma_first_index_none(before, fits(size, align));
    }
    None
}

/// Take addresses out of one of the ranges.
fn carve(ranges: &mut Vec<(u64, u64)>, idx: usize, start: u64, size: u64)
    requires
        idx < old(ranges)@.len(),
        old(ranges)@[idx as int].0 <= start,
        start + size <= end_of(old(ranges)@[idx as int]) <= u64::MAX,
    ensures
        final(ranges)@ == carved(old(ranges)@, idx as int, start, size),
{
    let count = ranges.len();
    assert(idx < count);
    let (low, room) = ranges[idx];
    let before = start - low;
    let after = room - before - size;
    if before == 0 {
        if after == 0 {
            ranges.remove(idx);
        } else {
            ranges.set(idx, (start + size, after));
        }
    } else if after == 0 {
        ranges.set(idx, (low, before));
    } else {
        ranges.set(idx, (low, before));
        ranges.insert(idx + 1, (start + size, after));
    }
}

/// Take given addresses out of the range that holds them all, if there is one.
pub fn remove(ranges: &mut Vec<(u64, u64)>, start: u64, size: u64)
    requires
        ordered(old(ranges)@),
    ensures
        final(ranges)@ == removing(old(ranges)@, start, size),
{
    if size == 0 {
        return;
    }
    let ghost before = ranges@;
    let mut idx: usize = 0;
    while idx < ranges.len()
        invariant
            before == old(ranges)@,
            size > 0,
            ranges@ == before,
            ordered(before),
            idx <= before.len(),
            forall|k: int| 0 <= k < idx ==> !holds(start, size)(#[trigger] before[k]),
        decreases before.len() - idx,
    {
        let (low, room) = ranges[idx];
        assert(end_of(before[idx as int]) <= u64::MAX);
        let end = low + room;
        if start >= low && start <= end && size <= end - start {
            proof {
                assert(holds(start, size)(before[idx as int]));
                lemma_first_index_is(before, holds(start, size), idx as int);
            }
            carve(ranges, idx, start, size);
            return;
        }
        idx += 1;
    }
    proof {
        crate::seqs::lemma_first_index_none(before, holds(start, size));
    }
}

/// Give addresses back.
pub fn give(ranges: &mut Vec<(u64, u64)>, start: u64, size: u64)
    requires
        ordered(old(ranges)@),
        can_give(old(ranges)@, start, size),
    ensures
        final(ranges)@ == given(old(ranges)@, start, size),
{
    if size == 0 {
        return;
    }
    let ghost all = ranges@;
    let end = start + size;
    let ins = place(ranges, start);
    proof {
        lemma_given_parts(all, start, size);
    }
    let left = ins > 0 && ranges[ins - 1].0 + ranges[ins - 1].1 == start;
    let right = ins < ranges.len() && ranges[ins].0 == end;
    if left && right {
        let low = ranges[ins - 1].0;
        let high = ranges[ins].0 + ranges[ins].1;
        ranges.remove(ins);
        ranges.set(ins - 1, (low, high - low));
    } else if left {
        let low = ranges[ins - 1].0;
        ranges.set(ins - 1, (low, end - low));
    } else if right {
        let high = ranges[ins].0 + ranges[ins].1;
        ranges.set(ins, (start, high - start));
    } else {
        ranges.insert(ins, (start, size));
    }
}

/// Where a range that starts at an address belongs.
pub fn place(ranges: &Vec<(u64, u64)>, a: u64) -> (r: usize)
    ensures
        r == place_of(ranges@, a),
{
    let mut ins: usize = 0;
    while ins < ranges.len() && ranges[ins].0 < a
        invariant
            ins <= ranges@.len(),
            forall|k: int| 0 <= k < ins ==> !starts_from(a)(#[trigger] ranges@[k]),
        decreases ranges@.len() - ins,
    {
        ins += 1;
    }
    proof {
        if ins < ranges@.len() {
            assert(starts_from(a)(ranges@[ins as int]));
            lemma_first_index_is(ranges@, starts_from(a), ins as int);
        } else {
            crate::seqs::lemma_first_index_none(ranges@, starts_from(a));
        }
    }
    ins
}

/// Whether addresses can be given back: there are none, or they end where addresses
/// end and none of them is free.
pub open spec fn can_give(ranges: Seq<(u64, u64)>, start: u64, size: u64) -> bool {
    size > 0 ==> start + size <= u64::MAX && clear_of(ranges, start as int, size as int)
}

/// Whether addresses can be given back.
pub fn is_taken(ranges: &Vec<(u64, u64)>, start: u64, size: u64) -> (r: bool)
    requires
        ordered(ranges@),
    ensures
        r == can_give(ranges@, start, size),
{
    if size == 0 {
        return true;
    }
    let end = match start.checked_add(size) {
        Some(end) => end,
        None => {
            return false;
        },
    };
    let mut idx: usize = 0;
    while idx < ranges.len()
        invariant
            size > 0,
            end == start + size,
            ordered(ranges@),
            idx <= ranges@.len(),
            forall|k: int|
                0 <= k < idx ==> {
                    ||| (#[trigger] ranges@[k]).0 < start && end_of(ranges@[k]) <= start
                    ||| start + size <= ranges@[k].0
                },
        decreases ranges@.len() - idx,
    {
        let (low, room) = ranges[idx];
        assert(end_of(ranges@[idx as int]) <= u64::MAX);
        if !(low < start && low + room <= start) && low < end {
            assert(!clear_of(ranges@, start as int, size as int)) by {
                let r = ranges@[idx as int];
            }
            return false;
        }
        idx += 1;
    }
    true
}

/// How many addresses are free.
pub fn count(ranges: &Vec<(u64, u64)>) -> (r: u64)
    requires
        ordered(ranges@),
    ensures
        r == total(ranges@),
{
    let mut n: u64 = 0;
    let mut idx: usize = 0;
    while idx < ranges.len()
        invariant
            ordered(ranges@),
            idx <= ranges@.len(),
            n == total(ranges@.take(idx as int)),
        decreases ranges@.len() - idx,
    {
        proof {
            crate::seqs::lemma_sum_step(ranges@, size_of_range(), idx as int);
            crate::seqs::lemma_sum_part(ranges@, size_of_range(), idx as int + 1);
            lemma_total_bounded(ranges@, 0, u64::MAX as int);
        }
        n += ranges[idx].1;
        idx += 1;
    }
    assert(ranges@.take(idx as int) =~= ranges@);
    n
}

// ─── What holds of both ─────────────────────────────────────────────────────

/// What was taken lies in what was free, is aligned up, and can be given back.
pub proof fn lemma_taking(ranges: Seq<(u64, u64)>, size: u64, align: u64)
    requires
        ordered(ranges),
    ensures
        ordered(taking(ranges, size, align).1),
        match taking(ranges, size, align).0 {
            Some(start) => {
                let left = taking(ranges, size, align).1;
                &&& can_give(left, start, size)
                &&& total(left) == total(ranges) - size
                &&& forall|a: int| start <= a < start + size ==> #[trigger] covers(ranges, a)
                &&& forall|a: int| #[trigger]
                    covers(left, a) <==> covers(ranges, a) && !(start <= a < start + size)
                &&& forall|low: int, high: int| #[trigger]
                    within(ranges, low, high) ==> within(left, low, high) && low <= start && start
                        + size <= high
                &&& forall|s: int, n: int|
                    n >= 0 && #[trigger] clear_of(ranges, s, n) ==> clear_of(left, s, n)
            },
            None => taking(ranges, size, align).1 == ranges,
        },
{
    lemma_first_index(ranges, fits(size, align));
    if let Some(i) = first_index(ranges, fits(size, align)) {
        lemma_snapped(ranges[i].0, align);
        let start = snapped(ranges[i].0, align);
        lemma_carved(ranges, i, start, size);
        assert forall|a: int| start <= a < start + size implies #[trigger] covers(ranges, a) by {
            assert(ranges[i].0 <= a < end_of(ranges[i]));
        }
    }
}

/// Taking given addresses out adds none, and keeps the list in order.
pub proof fn lemma_removing(ranges: Seq<(u64, u64)>, start: u64, size: u64)
    requires
        ordered(ranges),
    ensures
        ordered(removing(ranges, start, size)),
        total(removing(ranges, start, size)) <= total(ranges),
        forall|a: int| #[trigger] covers(removing(ranges, start, size), a) ==> covers(ranges, a),
        forall|low: int, high: int| #[trigger]
            within(ranges, low, high) ==> within(removing(ranges, start, size), low, high),
        forall|s: int, n: int|
            n >= 0 && #[trigger] clear_of(ranges, s, n) ==> clear_of(
                removing(ranges, start, size),
                s,
                n,
            ),
{
    lemma_first_index(ranges, holds(start, size));
    if size > 0 {
        if let Some(i) = first_index(ranges, holds(start, size)) {
            lemma_carved(ranges, i, start, size);
        }
    }
}

/// Carving leaves room between the ranges where there was some.
proof fn lemma_carved_separated(ranges: Seq<(u64, u64)>, i: int, start: u64, size: u64)
    requires
        can_carve(ranges, i, start, size),
        separated(ranges),
        size > 0,
    ensures
        separated(carved(ranges, i, start, size)),
{
    lemma_carved_parts(ranges, i, start, size);
    lemma_carved_ordered(ranges, i, start, size);
    let c = carved(ranges, i, start, size);
    assert forall|j: int, k: int| 0 <= j < k < c.len() implies end_of(#[trigger] c[j]) < (
    #[trigger] c[k]).0 by {
        let a = lemma_carved_origin(ranges, i, start, size, j);
        let b = lemma_carved_origin(ranges, i, start, size, k);
        if a < b {
            assert(end_of(ranges[a]) < ranges[b].0);
        } else {
            assert(a == i && b == i);
            assert(c[j].0 < c[k].0);
        }
    }
}

/// Giving back leaves room between the ranges where there was some.
proof fn lemma_given_separated(ranges: Seq<(u64, u64)>, start: u64, size: u64)
    requires
        separated(ranges),
        can_give(ranges, start, size),
    ensures
        separated(given(ranges, start, size)),
{
    if size > 0 {
        lemma_place(ranges, start);
        lemma_given_parts(ranges, start, size);
        lemma_given_ordered(ranges, start, size);
        let g = given(ranges, start, size);
        let p = place_of(ranges, start);
        let q = joined_at(ranges, start);
        let d: int = g.len() - ranges.len();
        assert forall|j: int, k: int| 0 <= j < k < g.len() implies end_of(#[trigger] g[j]) < (
        #[trigger] g[k]).0 by {
            if j < q {
                assert(g[j] == ranges[j]);
                if k > q {
                    assert(g[k] == ranges[k - d]);
                } else if k < q {
                    assert(g[k] == ranges[k]);
                } else {
                    assert(ranges[j].0 < start);
                    assert(end_of(ranges[j]) <= start);
                    if q == p {
                        assert(j <= p - 1);
                        if j < p - 1 {
                            assert(end_of(ranges[j]) < ranges[p - 1].0);
                        }
                    }
                }
            } else if j == q {
                assert(g[k] == ranges[k - d]);
                assert(end_of(g[q]) <= ranges[k - d].0);
                if p < ranges.len() && k - d > p {
                    assert(end_of(ranges[p]) < ranges[k - d].0);
                }
            } else {
                assert(g[j] == ranges[j - d]);
                assert(g[k] == ranges[k - d]);
            }
        }
    }
}

/// A free list with room between its ranges keeps it: whatever is taken by first
/// fit, taken out at an address or given back, no two of its ranges ever touch or
/// overlap.
pub proof fn law_free_ranges_stay_separated(
    ranges: Seq<(u64, u64)>,
    size: u64,
    align: u64,
    start: u64,
)
    requires
        separated(ranges),
        size > 0,
    ensures
        separated(taking(ranges, size, align).1),
        separated(removing(ranges, start, size)),
        can_give(ranges, start, size) ==> separated(given(ranges, start, size)),
{
    lemma_first_index(ranges, fits(size, align));
    if let Some(i) = first_index(ranges, fits(size, align)) {
        lemma_snapped(ranges[i].0, align);
        lemma_carved_separated(ranges, i, snapped(ranges[i].0, align), size);
    }
    lemma_first_index(ranges, holds(start, size));
    if let Some(i) = first_index(ranges, holds(start, size)) {
        lemma_carved_separated(ranges, i, start, size);
    }
    if can_give(ranges, start, size) {
        lemma_given_separated(ranges, start, size);
    }
}

/// What was carved out of a range and is given back leaves the same list.
proof fn lemma_carved_given(ranges: Seq<(u64, u64)>, i: int, start: u64, size: u64)
    requires
        can_carve(ranges, i, start, size),
        separated(ranges),
        size > 0,
    ensures
        given(carved(ranges, i, start, size), start, size) == ranges,
{
    lemma_carved_parts(ranges, i, start, size);
    let c = carved(ranges, i, start, size);
    let before = left_before(ranges, i, start);
    let p = if before > 0 {
        i + 1
    } else {
        i
    };
    lemma_carved_ordered(ranges, i, start, size);
    assert forall|k: int| 0 <= k < p implies !starts_from(start)(#[trigger] c[k]) by {
        if k < i {
            assert(c[k] == ranges[k]);
            assert(end_of(ranges[k]) < ranges[i].0);
        }
    }
    if p < c.len() {
        assert(c[p].0 >= start) by {
            if left_after(ranges, i, start, size) == 0 {
                let d = carved_more(ranges, i, start, size);
                assert(c[p] == ranges[p - d]);
                assert(end_of(ranges[i]) < ranges[p - d].0);
            }
        }
        lemma_first_index_is(c, starts_from(start), p);
    } else {
        lemma_first_index(c, starts_from(start));
    }
    assert(place_of(c, start) == p);
    if before == 0 && i > 0 {
        assert(c[i - 1] == ranges[i - 1]);
        assert(end_of(ranges[i - 1]) < ranges[i].0);
    }
    if i + 1 < ranges.len() {
        assert(end_of(ranges[i]) < ranges[i + 1].0);
    }
    assert(given(c, start, size) =~= ranges);
}

/// A range that was taken and given back is free again, and with it exactly what
/// was free before; where there was room between the ranges, the list is the same.
pub proof fn law_take_then_give_restores(ranges: Seq<(u64, u64)>, size: u64, align: u64)
    requires
        ordered(ranges),
        taking(ranges, size, align).0 is Some,
    ensures
        ({
            let (start, left) = taking(ranges, size, align);
            let back = given(left, start->0, size);
            &&& ordered(back)
            &&& total(back) == total(ranges)
            &&& forall|a: int| #[trigger] covers(back, a) <==> covers(ranges, a)
            &&& separated(ranges) && size > 0 ==> back == ranges
        }),
{
    lemma_taking(ranges, size, align);
    let (start, left) = taking(ranges, size, align);
    if separated(ranges) && size > 0 {
        lemma_first_index(ranges, fits(size, align));
        let i = first_index(ranges, fits(size, align))->0;
        lemma_snapped(ranges[i].0, align);
        lemma_carved_given(ranges, i, start->0, size);
    }
    lemma_given(left, start->0, size);
    assert forall|a: int| #[trigger] covers(given(left, start->0, size), a) <==> covers(
        ranges,
        a,
    ) by {
        assert(covers(left, a) <==> covers(ranges, a) && !(start->0 <= a < start->0 + size));
    }
}

/// Two ranges taken one after the other do not overlap.
pub proof fn law_taken_ranges_are_apart(
    ranges: Seq<(u64, u64)>,
    size: u64,
    align: u64,
    size2: u64,
    align2: u64,
)
    requires
        ordered(ranges),
        taking(ranges, size, align).0 is Some,
        taking(taking(ranges, size, align).1, size2, align2).0 is Some,
    ensures
        ({
            let a = taking(ranges, size, align).0->0;
            let b = taking(taking(ranges, size, align).1, size2, align2).0->0;
            size == 0 || size2 == 0 || a + size <= b || b + size2 <= a
        }),
{
    let (first, left) = taking(ranges, size, align);
    lemma_taking(ranges, size, align);
    lemma_taking(left, size2, align2);
    let a = first->0;
    let b = taking(left, size2, align2).0->0;
    if size > 0 && size2 > 0 && b < a + size && a < b + size2 {
        let x = if a <= b {
            b as int
        } else {
            a as int
        };
        assert(covers(left, x));
    }
}

/// A range is found whenever one of the free ranges can hold it.
pub proof fn law_first_fit_finds(ranges: Seq<(u64, u64)>, size: u64, align: u64, i: int)
    requires
        0 <= i < ranges.len(),
        fits(size, align)(ranges[i]),
    ensures
        taking(ranges, size, align).0 is Some,
{
    lemma_first_index(ranges, fits(size, align));
}

// ─── Joining neighbours ─────────────────────────────────────────────────────

/// The ranges come in order of their starts and end where addresses end.
pub open spec fn sorted(ranges: Seq<(u64, u64)>) -> bool {
    &&& forall|i: int| 0 <= i < ranges.len() ==> end_of(#[trigger] ranges[i]) <= u64::MAX
    &&& forall|i: int, j: int|
        0 <= i < j < ranges.len() ==> (#[trigger] ranges[i]).0 <= (#[trigger] ranges[j]).0
}

/// The ranges with neighbours joined that touch or overlap.
pub open spec fn coalesced(ranges: Seq<(u64, u64)>) -> Seq<(u64, u64)>
    decreases ranges.len(),
{
    if ranges.len() == 0 {
        ranges
    } else {
        let before = coalesced(ranges.drop_last());
        let r = ranges.last();
        if before.len() > 0 && r.0 <= end_of(before.last()) {
            let last = before.last();
            before.drop_last().push(
                (last.0, greatest(last.1, (end_of(r) - last.0) as u64)),
            )
        } else {
            before.push(r)
        }
    }
}

/// Joining keeps ranges of a sorted list, and leaves room between them.
proof fn lemma_coalesced(ranges: Seq<(u64, u64)>)
    requires
        sorted(ranges),
    ensures
        separated(coalesced(ranges)),
        ranges.len() > 0 ==> coalesced(ranges).len() > 0 && coalesced(ranges).last().0
            <= ranges.last().0 && end_of(ranges.last()) <= end_of(coalesced(ranges).last()),
        ranges.len() == 0 ==> coalesced(ranges).len() == 0,
    decreases ranges.len(),
{
    if ranges.len() > 0 {
        let init = ranges.drop_last();
        assert forall|i: int, j: int| 0 <= i < j < init.len() implies (#[trigger] init[i]).0 <= (
        #[trigger] init[j]).0 by {
            assert(init[i] == ranges[i] && init[j] == ranges[j]);
        }
        assert forall|i: int| 0 <= i < init.len() implies end_of(#[trigger] init[i]) <= u64::MAX by {
            assert(init[i] == ranges[i]);
        }
        lemma_coalesced(init);
        let before = coalesced(init);
        let r = ranges[ranges.len() - 1];
        assert(r == ranges.last());
        if init.len() > 0 {
            assert(init.last() == ranges[ranges.len() - 2]);
            assert(init.last().0 <= r.0);
        }
        let c = coalesced(ranges);
        if before.len() > 0 && r.0 <= end_of(before.last()) {
            assert forall|i: int| 0 <= i < c.len() - 1 implies #[trigger] c[i] == before[i] by {}
            assert(before.last() == before[before.len() - 1]);
        } else {
            assert forall|i: int| 0 <= i < c.len() - 1 implies #[trigger] c[i] == before[i] by {}
        }
    }
}

/// A range that starts behind an address.
pub open spec fn starts_behind(a: u64) -> spec_fn((u64, u64)) -> bool {
    |r: (u64, u64)| r.0 > a
}

/// Where a range that starts at an address comes behind those that start there
/// or before it.
pub open spec fn place_behind(ranges: Seq<(u64, u64)>, a: u64) -> int {
    match first_index(ranges, starts_behind(a)) {
        Some(i) => i,
        None => ranges.len() as int,
    }
}

/// The ranges in order of their starts; those that start together stay as they
/// come.
pub open spec fn by_start(ranges: Seq<(u64, u64)>) -> Seq<(u64, u64)>
    decreases ranges.len(),
{
    if ranges.len() == 0 {
        ranges
    } else {
        let before = by_start(ranges.drop_last());
        before.insert(place_behind(before, ranges.last().0), ranges.last())
    }
}

/// One more range covers its own addresses besides.
proof fn lemma_covers_one_more(ranges: Seq<(u64, u64)>, p: int, r: (u64, u64), a: int)
    requires
        0 <= p <= ranges.len(),
    ensures
        covers(ranges.insert(p, r), a) <==> covers(ranges, a) || r.0 <= a < end_of(r),
{
    let g = ranges.insert(p, r);
    if covers(g, a) {
        let k = choose|k: int| 0 <= k < g.len() && (#[trigger] g[k]).0 <= a < end_of(g[k]);
        if k < p {
            assert(g[k] == ranges[k]);
        } else if k > p {
            assert(g[k] == ranges[k - 1]);
        }
    }
    if r.0 <= a < end_of(r) {
        assert(g[p] == r);
    } else if covers(ranges, a) {
        let k = choose|k: int|
            0 <= k < ranges.len() && (#[trigger] ranges[k]).0 <= a < end_of(ranges[k]);
        if k < p {
            assert(g[k] == ranges[k]);
        } else {
            assert(g[k + 1] == ranges[k]);
        }
    }
}

/// Sorting leaves what the ranges cover.
proof fn lemma_by_start(ranges: Seq<(u64, u64)>)
    requires
        forall|i: int| 0 <= i < ranges.len() ==> end_of(#[trigger] ranges[i]) <= u64::MAX,
    ensures
        sorted(by_start(ranges)),
        by_start(ranges).len() == ranges.len(),
        forall|a: int| #[trigger] covers(by_start(ranges), a) <==> covers(ranges, a),
    decreases ranges.len(),
{
    if ranges.len() > 0 {
        let init = ranges.drop_last();
        let r = ranges[ranges.len() - 1];
        assert forall|i: int| 0 <= i < init.len() implies end_of(#[trigger] init[i]) <= u64::MAX by {
            assert(init[i] == ranges[i]);
        }
        lemma_by_start(init);
        let before = by_start(init);
        let p = place_behind(before, r.0);
        lemma_first_index(before, starts_behind(r.0));
        let s = by_start(ranges);
        assert(s == before.insert(p, r));
        assert forall|i: int| 0 <= i < s.len() implies end_of(#[trigger] s[i]) <= u64::MAX by {
            if i < p {
                assert(s[i] == before[i]);
            } else if i > p {
                assert(s[i] == before[i - 1]);
            }
        }
        assert forall|i: int| 0 <= i < p implies (#[trigger] before[i]).0 <= r.0 by {
            assert(!starts_behind(r.0)(before[i]));
        }
        assert forall|i: int, j: int| 0 <= i < j < s.len() implies (#[trigger] s[i]).0 <= (
        #[trigger] s[j]).0 by {
            if i < p {
                assert(s[i] == before[i]);
            } else if i > p {
                assert(s[i] == before[i - 1]);
            }
            if j < p {
                assert(s[j] == before[j]);
            } else if j > p {
                assert(s[j] == before[j - 1]);
                assert(starts_behind(r.0)(before[p]));
            }
        }
        assert forall|a: int| #[trigger] covers(s, a) <==> covers(ranges, a) by {
            lemma_covers_one_more(before, p, r, a);
            lemma_covers_one_more(init, init.len() as int, r, a);
            assert(init.insert(init.len() as int, r) =~= ranges);
            assert(covers(before, a) <==> covers(init, a));
        }
    }
}

/// Joining neighbours leaves what the ranges cover.
proof fn lemma_coalesced_covers(ranges: Seq<(u64, u64)>, a: int)
    requires
        sorted(ranges),
    ensures
        covers(coalesced(ranges), a) <==> covers(ranges, a),
    decreases ranges.len(),
{
    if ranges.len() > 0 {
        let n = ranges.len() - 1;
        let init = ranges.drop_last();
        let r = ranges[n];
        lemma_sorted_prefix(ranges, n);
        assert(init =~= ranges.take(n));
        lemma_coalesced_covers(init, a);
        lemma_coalesced(init);
        let before = coalesced(init);
        lemma_covers_one_more(init, n, r, a);
        assert(init.insert(n, r) =~= ranges);
        if before.len() > 0 && r.0 <= end_of(before.last()) {
            let m = before.len() - 1;
            let last = before[m];
            let rest = before.drop_last();
            assert(init.last() == ranges[n - 1]);
            assert(last.0 <= r.0);
            let long = (last.0, greatest(last.1, (end_of(r) - last.0) as u64));
            lemma_covers_one_more(rest, m, last, a);
            assert(rest.insert(m, last) =~= before);
            lemma_covers_one_more(rest, m, long, a);
            assert(rest.insert(m, long) =~= coalesced(ranges));
        } else {
            lemma_covers_one_more(before, before.len() as int, r, a);
            assert(before.insert(before.len() as int, r) =~= coalesced(ranges));
        }
    }
}

/// Put ranges in order of their starts.
fn sort_by_start(ranges: &mut Vec<(u64, u64)>)
    ensures
        final(ranges)@ == by_start(old(ranges)@),
{
    let ghost all = ranges@;
    let mut placed: Vec<(u64, u64)> = Vec::new();
    let mut idx: usize = 0;
    assert(all.take(0) =~= Seq::empty());
    while idx < ranges.len()
        invariant
            ranges@ == all,
            idx <= all.len(),
            placed@ == by_start(all.take(idx as int)),
        decreases all.len() - idx,
    {
        let (start, size) = ranges[idx];
        let mut at: usize = 0;
        while at < placed.len() && placed[at].0 <= start
            invariant
                at <= placed@.len(),
                forall|k: int| 0 <= k < at ==> !starts_behind(start)(#[trigger] placed@[k]),
            decreases placed@.len() - at,
        {
            at += 1;
        }
        proof {
            if at < placed@.len() {
                assert(starts_behind(start)(placed@[at as int]));
                lemma_first_index_is(placed@, starts_behind(start), at as int);
            } else {
                crate::seqs::lemma_first_index_none(placed@, starts_behind(start));
            }
            let longer = all.take(idx as int + 1);
            assert(longer.drop_last() =~= all.take(idx as int));
            assert(longer.last() == (start, size));
        }
        placed.insert(at, (start, size));
        idx += 1;
    }
    assert(all.take(idx as int) =~= all);
    *ranges = placed;
}

/// Join ranges that touch or overlap, in whatever order they come. What they cover
/// stays the same.
pub fn coalesce(ranges: &mut Vec<(u64, u64)>)
    requires
        forall|i: int| 0 <= i < old(ranges)@.len() ==> end_of(#[trigger] old(ranges)@[i]) <= u64::MAX,
    ensures
        final(ranges)@ == coalesced(by_start(old(ranges)@)),
        separated(final(ranges)@),
        forall|a: int| #[trigger] covers(final(ranges)@, a) <==> covers(old(ranges)@, a),
{
    proof {
        lemma_by_start(ranges@);
    }
    sort_by_start(ranges);
    let ghost all = ranges@;
    assert(all == by_start(old(ranges)@));
    let mut merged: Vec<(u64, u64)> = Vec::new();
    let mut idx: usize = 0;
    assert(all.take(0) =~= Seq::empty());
    while idx < ranges.len()
        invariant
            ranges@ == all,
            sorted(all),
            idx <= all.len(),
            merged@ == coalesced(all.take(idx as int)),
        decreases all.len() - idx,
    {
        let (start, size) = ranges[idx];
        proof {
            assert(all[idx as int] == (start, size));
            let longer = all.take(idx as int + 1);
            assert(longer.drop_last() =~= all.take(idx as int));
            assert(longer.last() == (start, size));
            lemma_sorted_prefix(all, idx as int);
            lemma_sorted_prefix(all, idx as int + 1);
            lemma_coalesced(all.take(idx as int));
            if idx > 0 {
                assert(all.take(idx as int).last() == all[idx as int - 1]);
            }
        }
        let count = merged.len();
        if count > 0 {
            let last = merged[count - 1];
            assert(last == merged@.last());
            let last_end = last.0 + last.1;
            if start <= last_end {
                let reach = start + size - last.0;
                let joined_size = if last.1 <= reach {
                    reach
                } else {
                    last.1
                };
                merged.set(count - 1, (last.0, joined_size));
                assert(merged@ =~= coalesced(all.take(idx as int + 1)));
                idx += 1;
                continue;
            }
        }
        merged.push((start, size));
        idx += 1;
    }
    assert(all.take(idx as int) =~= all);
    proof {
        lemma_coalesced(all);
        assert forall|a: int| #[trigger] covers(coalesced(all), a) <==> covers(old(ranges)@, a) by {
            lemma_coalesced_covers(all, a);
            assert(covers(by_start(old(ranges)@), a) <==> covers(old(ranges)@, a));
        }
    }
    *ranges = merged;
}

/// The first of sorted ranges are sorted.
proof fn lemma_sorted_prefix(ranges: Seq<(u64, u64)>, n: int)
    requires
        sorted(ranges),
        0 <= n <= ranges.len(),
    ensures
        sorted(ranges.take(n)),
{
    assert forall|i: int, j: int| 0 <= i < j < n implies (#[trigger] ranges.take(n)[i]).0 <= (
    #[trigger] ranges.take(n)[j]).0 by {
        assert(ranges.take(n)[i] == ranges[i] && ranges.take(n)[j] == ranges[j]);
    }
}

/// Ranges with room between them stay as they are.
proof fn lemma_coalesced_separated(ranges: Seq<(u64, u64)>)
    requires
        separated(ranges),
    ensures
        coalesced(ranges) == ranges,
    decreases ranges.len(),
{
    if ranges.len() > 0 {
        let init = ranges.drop_last();
        assert forall|i: int, j: int| 0 <= i < j < init.len() implies end_of(#[trigger] init[i])
            < (#[trigger] init[j]).0 by {
            assert(init[i] == ranges[i] && init[j] == ranges[j]);
        }
        assert forall|i: int| 0 <= i < init.len() implies end_of(#[trigger] init[i]) <= u64::MAX by {
            assert(init[i] == ranges[i]);
        }
        lemma_coalesced_separated(init);
        if init.len() > 0 {
            assert(init.last() == ranges[ranges.len() - 2]);
            assert(ranges.last() == ranges[ranges.len() - 1]);
        }
        assert(init.push(ranges.last()) =~= ranges);
    }
}

/// Giving a range back to a list with room between its ranges is putting it in
/// its place and joining neighbours.
pub proof fn law_giving_back_is_joining(ranges: Seq<(u64, u64)>, start: u64, size: u64)
    requires
        separated(ranges),
        can_give(ranges, start, size),
        size > 0,
    ensures
        given(ranges, start, size) == coalesced(
            ranges.insert(place_of(ranges, start), (start, size)),
        ),
{
    let p = place_of(ranges, start);
    lemma_place(ranges, start);
    let inserted = ranges.insert(p, (start, size));
    let g = given(ranges, start, size);
    let d: int = inserted.len() - g.len();
    assert(inserted.take(inserted.len() as int) =~= inserted);
    if p == ranges.len() {
        lemma_join_at(ranges, start, size);
        let left = p > 0 && end_of(ranges[p - 1]) == start;
        if left {
            assert(g =~= coalesced(inserted));
        } else {
            assert(g =~= coalesced(inserted));
        }
    } else {
        lemma_join_step(ranges, start, size, inserted.len() as int);
        assert(g.take(inserted.len() - d) =~= g);
    }
}

/// How far joining has come after the ranges in front of the one given back.
proof fn lemma_join_before(ranges: Seq<(u64, u64)>, start: u64, size: u64, k: int)
    requires
        separated(ranges),
        0 <= k <= place_of(ranges, start),
    ensures
        coalesced(ranges.insert(place_of(ranges, start), (start, size)).take(k)) == ranges.take(k),
{
    lemma_place(ranges, start);
    let p = place_of(ranges, start);
    let inserted = ranges.insert(p, (start, size));
    assert(inserted.take(k) =~= ranges.take(k));
    let t = ranges.take(k);
    assert forall|i: int, j: int| 0 <= i < j < t.len() implies end_of(#[trigger] t[i]) < (
    #[trigger] t[j]).0 by {
        assert(t[i] == ranges[i] && t[j] == ranges[j]);
    }
    assert forall|i: int| 0 <= i < t.len() implies end_of(#[trigger] t[i]) <= u64::MAX by {
        assert(t[i] == ranges[i]);
    }
    lemma_coalesced_separated(t);
}

/// The ranges around the place of a range that is given back.
proof fn lemma_around(ranges: Seq<(u64, u64)>, start: u64, size: u64)
    requires
        separated(ranges),
        can_give(ranges, start, size),
        size > 0,
    ensures
        forall|i: int|
            0 <= i < place_of(ranges, start) ==> (#[trigger] ranges[i]).0 < start && end_of(
                ranges[i],
            ) <= start,
        forall|i: int|
            place_of(ranges, start) <= i < ranges.len() ==> start + size <= (#[trigger] ranges[i]).0,
{
    lemma_place(ranges, start);
    let p = place_of(ranges, start);
    assert forall|i: int| p <= i < ranges.len() implies start + size <= (#[trigger] ranges[i]).0 by {
        assert(ranges[p].0 >= start);
        if i > p {
            assert(end_of(ranges[p]) < ranges[i].0);
        }
    }
}

/// How far joining has come with the range given back.
proof fn lemma_join_at(ranges: Seq<(u64, u64)>, start: u64, size: u64)
    requires
        separated(ranges),
        can_give(ranges, start, size),
        size > 0,
    ensures
        ({
            let p = place_of(ranges, start);
            let left = p > 0 && end_of(ranges[p - 1]) == start;
            coalesced(ranges.insert(p, (start, size)).take(p + 1)) == (if left {
                ranges.take(p - 1).push((ranges[p - 1].0, (start + size - ranges[p - 1].0) as u64))
            } else {
                ranges.take(p).push((start, size))
            })
        }),
{
    lemma_place(ranges, start);
    lemma_around(ranges, start, size);
    let p = place_of(ranges, start);
    lemma_join_before(ranges, start, size, p);
    let inserted = ranges.insert(p, (start, size));
    let longer = inserted.take(p + 1);
    assert(longer.drop_last() =~= inserted.take(p));
    assert(longer.last() == (start, size));
    let before = coalesced(inserted.take(p));
    if p > 0 {
        assert(before.last() == ranges[p - 1]);
        assert(before.drop_last() =~= ranges.take(p - 1));
    }
}

/// How far joining has come with the range behind the one given back.
proof fn lemma_join_right(ranges: Seq<(u64, u64)>, start: u64, size: u64)
    requires
        separated(ranges),
        can_give(ranges, start, size),
        size > 0,
        place_of(ranges, start) < ranges.len(),
    ensures
        ({
            let p = place_of(ranges, start);
            let inserted = ranges.insert(p, (start, size));
            let g = given(ranges, start, size);
            let c = coalesced(inserted.take(p + 2));
            &&& c == g.take(p + 2 - (inserted.len() - g.len()))
            &&& end_of(c.last()) == end_of(ranges[p])
        }),
{
    lemma_place(ranges, start);
    lemma_around(ranges, start, size);
    lemma_join_at(ranges, start, size);
    let p = place_of(ranges, start);
    let inserted = ranges.insert(p, (start, size));
    let longer = inserted.take(p + 2);
    assert(longer.drop_last() =~= inserted.take(p + 1));
    assert(longer.last() == ranges[p]);
    let before = coalesced(inserted.take(p + 1));
    let g = given(ranges, start, size);
    let d: int = inserted.len() - g.len();
    let left = p > 0 && end_of(ranges[p - 1]) == start;
    let right = ranges[p].0 == start + size;
    assert(end_of(before.last()) == start + size);
    if left {
        assert(before.drop_last() =~= ranges.take(p - 1));
    } else {
        assert(before.drop_last() =~= ranges.take(p));
    }
    let c = coalesced(longer);
    assert(right ==> c == before.drop_last().push(
        (before.last().0, greatest(before.last().1, (end_of(ranges[p]) - before.last().0) as u64)),
    ));
    assert(!right ==> c == before.push(ranges[p]));
    if left && right {
        assert(d == 2);
    } else if left || right {
        assert(d == 1);
    } else {
        assert(d == 0);
    }
    assert(c =~= g.take(p + 2 - d));
}

/// How far joining has come behind the range given back.
proof fn lemma_join_step(ranges: Seq<(u64, u64)>, start: u64, size: u64, k: int)
    requires
        separated(ranges),
        can_give(ranges, start, size),
        size > 0,
        place_of(ranges, start) + 1 < k <= ranges.len() + 1,
    ensures
        ({
            let p = place_of(ranges, start);
            let inserted = ranges.insert(p, (start, size));
            let g = given(ranges, start, size);
            let c = coalesced(inserted.take(k));
            &&& c == g.take(k - (inserted.len() - g.len()))
            &&& end_of(c.last()) == end_of(ranges[k - 2])
        }),
    decreases k,
{
    lemma_place(ranges, start);
    let p = place_of(ranges, start);
    if k == p + 2 {
        lemma_join_right(ranges, start, size);
    } else {
        lemma_join_step(ranges, start, size, k - 1);
        lemma_join_one_more(ranges, start, size, k);
    }
}

/// One more range behind the one given back stays as it is.
proof fn lemma_join_one_more(ranges: Seq<(u64, u64)>, start: u64, size: u64, k: int)
    requires
        separated(ranges),
        can_give(ranges, start, size),
        size > 0,
        place_of(ranges, start) + 2 < k <= ranges.len() + 1,
        ({
            let inserted = ranges.insert(place_of(ranges, start), (start, size));
            let g = given(ranges, start, size);
            let c = coalesced(inserted.take(k - 1));
            &&& c == g.take(k - 1 - (inserted.len() - g.len()))
            &&& end_of(c.last()) == end_of(ranges[k - 3])
        }),
    ensures
        ({
            let inserted = ranges.insert(place_of(ranges, start), (start, size));
            let g = given(ranges, start, size);
            let c = coalesced(inserted.take(k));
            &&& c == g.take(k - (inserted.len() - g.len()))
            &&& end_of(c.last()) == end_of(ranges[k - 2])
        }),
{
    lemma_place(ranges, start);
    lemma_given_parts(ranges, start, size);
    let p = place_of(ranges, start);
    let inserted = ranges.insert(p, (start, size));
    let g = given(ranges, start, size);
    let d: int = inserted.len() - g.len();
    let longer = inserted.take(k);
    assert(longer.drop_last() =~= inserted.take(k - 1));
    let r = longer.last();
    assert(r == ranges[k - 2]);
    let before = coalesced(inserted.take(k - 1));
    assert(end_of(ranges[k - 3]) < ranges[k - 2].0);
    assert(coalesced(longer) == before.push(r));
    assert(g[k - 1 - d] == r);
    assert(before.push(r) =~= g.take(k - d));
}

} // verus!
