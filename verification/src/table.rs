//! Shape predicates and the view of tables of binary32 patterns.
//!
//! A weights or delta matrix stores its rows as vectors of bit patterns;
//! the predicates here describe rectangular tables and equal shapes, and
//! the view maps a stored table to its mathematical sequence of sequences.

use vstd::prelude::*;

use crate::buffer::all_zero;

verus! {

/// A rectangular pattern table: at least one row, at least two columns
/// (one value column plus the bias column), all rows of equal length.
pub open spec fn rect(rows: Seq<Seq<u32>>) -> bool {
    &&& rows.len() >= 1
    &&& rows[0].len() >= 2
    &&& forall|i: int| 0 <= i < rows.len() ==> (#[trigger] rows[i]).len() == rows[0].len()
}

/// Two tables have the same shape.
pub open spec fn same_shape(a: Seq<Seq<u32>>, b: Seq<Seq<u32>>) -> bool {
    &&& a.len() == b.len()
    &&& forall|i: int| 0 <= i < a.len() ==> (#[trigger] a[i]).len() == b[i].len()
}

/// Every pattern of the table is the zero pattern.
pub open spec fn all_zero_rows(rows: Seq<Seq<u32>>) -> bool {
    forall|i: int| 0 <= i < rows.len() ==> all_zero(#[trigger] rows[i])
}

/// The mapping of a stored row table to its pattern sequences.
pub open spec fn rows_view(rows: Seq<Vec<u32>>) -> Seq<Seq<u32>> {
    rows.map_values(|r: Vec<u32>| r@)
}

/// The view of a row table has the table's length.
pub broadcast proof fn lemma_rows_view_len(rows: Seq<Vec<u32>>)
    ensures
        (#[trigger] rows_view(rows)).len() == rows.len(),
{
}

/// Each row of the view is the view of that row.
pub broadcast proof fn lemma_rows_view_index(rows: Seq<Vec<u32>>, i: int)
    requires
        0 <= i < rows.len(),
    ensures
        #[trigger] rows_view(rows)[i] == rows[i]@,
{
}

/// A table with the same shape as a rectangular table is rectangular.
pub proof fn lemma_rect_same_shape(a: Seq<Seq<u32>>, b: Seq<Seq<u32>>)
    requires
        rect(a),
        same_shape(a, b),
    ensures
        rect(b),
{
    assert forall|i: int| 0 <= i < b.len() implies (#[trigger] b[i]).len() == b[0].len() by {
        assert(a[i].len() == b[i].len());
        assert(a[0].len() == b[0].len());
        assert(a[i].len() == a[0].len());
    }
}

} // verus!
