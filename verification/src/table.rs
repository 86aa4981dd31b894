//! Tables of per-component results.
//!
//! A table holds one row per component, or one row per sample; the entry at
//! position `j` of row `k` belongs to the pair `(k, j)`. Entries are opaque:
//! the functions here only move them, and keep them in order.

use vstd::prelude::*;

verus! {

/// The rows of `table`, each as the sequence of its entries.
pub open spec fn rows<T>(table: Seq<Vec<T>>) -> Seq<Seq<T>> {
    Seq::new(table.len(), |k: int| table[k]@)
}

/// Every row of `table` has exactly `width` entries.
pub open spec fn has_width<T>(table: Seq<Seq<T>>, width: nat) -> bool {
    forall|k: int| 0 <= k < table.len() ==> (#[trigger] table[k]).len() == width
}

/// Every row of `table` has an entry at position `j`.
pub open spec fn reaches<T>(table: Seq<Seq<T>>, j: int) -> bool {
    forall|k: int| 0 <= k < table.len() ==> 0 <= j < (#[trigger] table[k]).len()
}

/// Row `k` is the first row of `table` that does not have `width` entries.
pub open spec fn first_ragged<T>(table: Seq<Seq<T>>, width: nat, k: int) -> bool {
    &&& 0 <= k < table.len()
    &&& table[k].len() != width
    &&& forall|j: int| 0 <= j < k ==> (#[trigger] table[j]).len() == width
}

/// Column `j` of `table`: entry `j` of every row, in the order of the rows.
pub open spec fn column_at<T>(table: Seq<Seq<T>>, j: int) -> Seq<T> {
    Seq::new(table.len(), |k: int| table[k][j])
}

/// Entry `k` of `coefficients` beside entry `i` of row `k` of `table`, for
/// every row.
pub open spec fn paired_at<T, V>(coefficients: Seq<T>, table: Seq<Seq<V>>, i: int) -> Seq<(T, V)> {
    Seq::new(table.len(), |k: int| (coefficients[k], table[k][i]))
}

/// The terms of a blend with every borrowed entry read out.
pub open spec fn read_terms<T, V>(terms: Seq<(T, &V)>) -> Seq<(T, V)> {
    Seq::new(terms.len(), |k: int| (terms[k].0, *terms[k].1))
}

/// Finds the first row of `table` that does not have `width` entries; `None`
/// says that every row has.
pub fn check_table<T>(table: &Vec<Vec<T>>, width: usize) -> (ragged: Option<usize>)
    ensures
        ragged is None <==> has_width(rows(table@), width as nat),
        match ragged {
            Some(k) => first_ragged(rows(table@), width as nat, k as int),
            None => true,
        },
{
    let n: usize = table.len();
    let mut k: usize = 0;
    while k < n
        invariant
            n == table@.len(),
            k <= n,
            forall|j: int| 0 <= j < k ==> (#[trigger] rows(table@)[j]).len() == width,
        decreases n - k,
    {
        if table[k].len() != width {
            assert(rows(table@)[k as int].len() != width);
            return Some(k);
        }
        k = k + 1;
    }
    None
}

/// Copies column `j` out of `table`.
pub fn copy_column<T: Copy>(table: &Vec<Vec<T>>, j: usize) -> (col: Vec<T>)
    requires
        reaches(rows(table@), j as int),
    ensures
        col@ == column_at(rows(table@), j as int),
{
    let n: usize = table.len();
    let mut col: Vec<T> = Vec::with_capacity(n);
    let mut k: usize = 0;
    while k < n
        invariant
            n == table@.len(),
            k <= n,
            reaches(rows(table@), j as int),
            col@.len() == k,
            forall|m: int| 0 <= m < k ==> (#[trigger] col@[m]) == table@[m]@[j as int],
        decreases n - k,
    {
        assert(0 <= j < rows(table@)[k as int].len());
        col.push(table[k][j]);
        k = k + 1;
    }
    assert(col@ =~= column_at(rows(table@), j as int));
    col
}

/// Lines up the coefficients of one sample with what every component holds
/// for that sample: term `k` is coefficient `k` beside entry `i` of row `k`.
/// The entries are borrowed, not copied.
pub fn blend_terms<'a, T: Copy, V>(
    coefficients: &Vec<T>,
    table: &'a Vec<Vec<V>>,
    i: usize,
) -> (terms: Vec<(T, &'a V)>)
    requires
        coefficients@.len() == table@.len(),
        reaches(rows(table@), i as int),
    ensures
        read_terms(terms@) == paired_at(coefficients@, rows(table@), i as int),
{
    let n: usize = table.len();
    let mut terms: Vec<(T, &'a V)> = Vec::with_capacity(n);
    let mut k: usize = 0;
    while k < n
        invariant
            n == table@.len(),
            n == coefficients@.len(),
            k <= n,
            reaches(rows(table@), i as int),
            terms@.len() == k,
            forall|m: int|
                0 <= m < k ==> (#[trigger] terms@[m]).0 == coefficients@[m] && *terms@[m].1
                    == table@[m]@[i as int],
        decreases n - k,
    {
        assert(0 <= i < rows(table@)[k as int].len());
        terms.push((coefficients[k], &table[k][i]));
        k = k + 1;
    }
    assert(read_terms(terms@) =~= paired_at(coefficients@, rows(table@), i as int));
    terms
}

} // verus!
