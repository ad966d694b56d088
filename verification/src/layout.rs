//! The layout of records in memory: where fields lie, and how large a record is.

use crate::num::round_up;
use vstd::prelude::*;

verus! {

/// A field: so many elements of a size and an alignment.
#[derive(Clone, Copy, Debug, PartialEq, Eq)]
pub struct Field {
    pub size: usize,
    pub align: usize,
    pub count: usize,
}

impl Field {
    /// A field of a size, alignment and count that a record can have.
    pub open spec fn wf(self) -> bool {
        0 < self.align <= 16 && self.size <= 0x1000 && self.count <= 0x1000
    }
}

/// Fields that a record can have.
pub open spec fn fields_wf(fields: Seq<Field>) -> bool {
    fields.len() <= 64 && forall|i: int| 0 <= i < fields.len() ==> (#[trigger] fields[i]).wf()
}

/// Where the fields end, without what follows to fill the record up. Each field
/// starts at the next multiple of its alignment.
pub open spec fn end_of_fields(fields: Seq<Field>) -> int
    decreases fields.len(),
{
    if fields.len() == 0 {
        0
    } else {
        let f = fields.last();
        round_up(end_of_fields(fields.drop_last()), f.align as int) + f.size * f.count
    }
}

/// Where a field starts.
pub open spec fn field_offset(fields: Seq<Field>, i: int) -> int {
    round_up(end_of_fields(fields.take(i)), fields[i].align as int)
}

/// The alignment of a record: the largest of its fields' alignments.
pub open spec fn record_align(fields: Seq<Field>) -> int
    decreases fields.len(),
{
    if fields.len() == 0 {
        1
    } else {
        let before = record_align(fields.drop_last());
        if fields.last().align > before {
            fields.last().align as int
        } else {
            before
        }
    }
}

/// The size of a record: its fields, filled up to a multiple of its alignment.
pub open spec fn record_size(fields: Seq<Field>) -> int {
    round_up(end_of_fields(fields), record_align(fields))
}

/// Records are not too large for their sizes to be computed.
pub proof fn lemma_bounds(fields: Seq<Field>)
    requires
        fields_wf(fields),
    ensures
        0 <= end_of_fields(fields) <= fields.len() * 0x100_0010,
        1 <= record_align(fields) <= 16,
    decreases fields.len(),
{
    if fields.len() > 0 {
        let init = fields.drop_last();
        assert forall|i: int| 0 <= i < init.len() implies (#[trigger] init[i]).wf() by {
            assert(init[i] == fields[i]);
        }
        lemma_bounds(init);
        let f = fields[fields.len() - 1];
        assert(f == fields.last());
        crate::num::lemma_round_up(end_of_fields(init), f.align as int);
        assert(0 <= f.size * f.count <= 0x1000 * 0x1000) by (nonlinear_arith)
            requires
                0 <= f.size <= 0x1000,
                0 <= f.count <= 0x1000,
        ;
    }
}

/// The next multiple of an alignment.
fn next_multiple(n: usize, align: usize) -> (r: usize)
    requires
        0 < align <= 16,
        n <= 0x7000_0000,
    ensures
        r == round_up(n as int, align as int),
{
    let q = (n + (align - 1)) / align;
    proof {
        crate::num::lemma_round_up(n as int, align as int);
    }
    assert(q * align == round_up(n as int, align as int));
    q * align
}

/// Where the first `n` fields end.
fn end_of_first(fields: &[Field], n: usize) -> (r: usize)
    requires
        fields_wf(fields@),
        n <= fields@.len(),
    ensures
        r == end_of_fields(fields@.take(n as int)),
        r <= 0x4000_0400,
{
    let mut end: usize = 0;
    let mut i: usize = 0;
    assert(fields@.take(0) =~= Seq::empty());
    while i < n
        invariant
            fields_wf(fields@),
            i <= n <= fields@.len(),
            end == end_of_fields(fields@.take(i as int)),
        decreases n - i,
    {
        let f = fields[i];
        let ghost shorter = fields@.take(i as int);
        let ghost longer = fields@.take(i as int + 1);
        proof {
            assert(longer.drop_last() =~= shorter);
            assert(longer.last() == f);
            lemma_bounds(shorter);
            lemma_bounds(longer);
            crate::num::lemma_round_up(end as int, f.align as int);
        }
        let start = next_multiple(end, f.align);
        assert(0 <= f.size * f.count <= 0x1000 * 0x1000) by (nonlinear_arith)
            requires
                0 <= f.size <= 0x1000,
                0 <= f.count <= 0x1000,
        ;
        end = start + f.size * f.count;
        i += 1;
    }
    proof {
        lemma_bounds(fields@.take(n as int));
    }
    end
}

/// Where a field starts.
pub fn offset_of(fields: &[Field], i: usize) -> (r: usize)
    requires
        fields_wf(fields@),
        i < fields@.len(),
    ensures
        r == field_offset(fields@, i as int),
{
    let end = end_of_first(fields, i);
    next_multiple(end, fields[i].align)
}

/// The alignment of a record.
pub fn align_of(fields: &[Field]) -> (r: usize)
    requires
        fields_wf(fields@),
    ensures
        r == record_align(fields@),
{
    let mut align: usize = 1;
    let mut i: usize = 0;
    assert(fields@.take(0) =~= Seq::empty());
    while i < fields.len()
        invariant
            fields_wf(fields@),
            i <= fields@.len(),
            align == record_align(fields@.take(i as int)),
        decreases fields@.len() - i,
    {
        let f = fields[i];
        proof {
            let longer = fields@.take(i as int + 1);
            assert(longer.drop_last() =~= fields@.take(i as int));
            assert(longer.last() == f);
        }
        if f.align > align {
            align = f.align;
        }
        i += 1;
    }
    assert(fields@.take(i as int) =~= fields@);
    align
}

/// The size of a record.
pub fn size_of(fields: &[Field]) -> (r: usize)
    requires
        fields_wf(fields@),
    ensures
        r == record_size(fields@),
{
    let end = end_of_first(fields, fields.len());
    assert(fields@.take(fields@.len() as int) =~= fields@);
    proof {
        lemma_bounds(fields@);
    }
    next_multiple(end, align_of(fields))
}

/// Fields do not overlap, each starts at a multiple of its alignment, and all of
/// them lie in the record.
pub proof fn law_fields_lie_apart(fields: Seq<Field>, i: int, j: int)
    requires
        fields_wf(fields),
        0 <= i < j < fields.len(),
    ensures
        field_offset(fields, i) % fields[i].align as int == 0,
        field_offset(fields, i) + fields[i].size * fields[i].count <= field_offset(fields, j),
        field_offset(fields, j) + fields[j].size * fields[j].count <= record_size(fields),
{
    lemma_prefix_wf(fields, i);
    lemma_bounds(fields.take(i));
    crate::num::lemma_round_up(end_of_fields(fields.take(i)), fields[i].align as int);
    lemma_ends_grow(fields, i + 1, j);
    lemma_end_of_prefix(fields, i);
    lemma_prefix_wf(fields, j);
    lemma_bounds(fields.take(j));
    crate::num::lemma_round_up(end_of_fields(fields.take(j)), fields[j].align as int);
    lemma_end_of_prefix(fields, j);
    lemma_ends_grow(fields, j + 1, fields.len() as int);
    assert(fields.take(fields.len() as int) =~= fields);
    lemma_bounds(fields);
    crate::num::lemma_round_up(end_of_fields(fields), record_align(fields));
}

/// The first fields of a record can be those of a record.
pub proof fn lemma_prefix_wf(fields: Seq<Field>, n: int)
    requires
        fields_wf(fields),
        0 <= n <= fields.len(),
    ensures
        fields_wf(fields.take(n)),
{
    assert forall|i: int| 0 <= i < n implies (#[trigger] fields.take(n)[i]).wf() by {
        assert(fields.take(n)[i] == fields[i]);
    }
}

/// The fields up to one end where it ends.
proof fn lemma_end_of_prefix(fields: Seq<Field>, i: int)
    requires
        0 <= i < fields.len(),
    ensures
        end_of_fields(fields.take(i + 1)) == field_offset(fields, i) + fields[i].size
            * fields[i].count,
{
    assert(fields.take(i + 1).drop_last() =~= fields.take(i));
    assert(fields.take(i + 1).last() == fields[i]);
}

/// More fields end no earlier.
proof fn lemma_ends_grow(fields: Seq<Field>, i: int, j: int)
    requires
        fields_wf(fields),
        0 <= i <= j <= fields.len(),
    ensures
        end_of_fields(fields.take(i)) <= end_of_fields(fields.take(j)),
    decreases j - i,
{
    if i < j {
        lemma_ends_grow(fields, i, j - 1);
        lemma_end_of_prefix(fields, j - 1);
        lemma_prefix_wf(fields, j - 1);
        lemma_bounds(fields.take(j - 1));
        let f = fields[j - 1];
        crate::num::lemma_round_up(end_of_fields(fields.take(j - 1)), f.align as int);
        assert(f.size * f.count >= 0) by (nonlinear_arith)
            requires
                f.size >= 0,
                f.count >= 0,
        ;
    }
}

} // verus!
