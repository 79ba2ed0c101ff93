//! The storage of one chunk of the grid: a two-dimensional `ndarray` array of
//! bytes, reached only through the small trusted items below.
use vstd::prelude::*;

use ndarray::Array2;

verus! {

/// An `ndarray` byte array, held opaquely: Verus cannot declare
/// `ndarray::ArrayBase`, whose type parameter is bound by an outside trait.
#[verifier::external_body]
pub struct ByteArray {
    cells: Array2<u8>,
}

/// The contents of a two-dimensional byte array: its rows, each a sequence of
/// the row's elements in column order.
pub uninterp spec fn array_rows(a: ByteArray) -> Seq<Seq<u8>>;

/// Relies on `ndarray::Array2::zeros`: an array of the given shape, every
/// element zero. It panics when an axis length, or the product of the
/// non-zero ones, exceeds `isize::MAX`, which `requires` rules out.
#[verifier::external_body]
pub(crate) fn zeroed(rows: usize, cols: usize) -> (r: ByteArray)
    requires
        rows <= isize::MAX,
        cols <= isize::MAX,
        rows * cols <= isize::MAX,
    ensures
        array_rows(r) == Seq::new(rows as nat, |i: int| Seq::new(cols as nat, |j: int| 0u8)),
{
    ByteArray { cells: Array2::zeros((rows, cols)) }
}

/// Relies on indexing an `ndarray::Array2` by `[row, col]`: the element at
/// that row and column; it panics out of bounds, which `requires` rules out.
#[verifier::external_body]
pub(crate) fn element(a: &ByteArray, row: usize, col: usize) -> (r: u8)
    requires
        row < array_rows(*a).len(),
        col < array_rows(*a)[row as int].len(),
    ensures
        r == array_rows(*a)[row as int][col as int],
{
    a.cells[[row, col]]
}

/// Relies on mutable indexing of an `ndarray::Array2` by `[row, col]`: only
/// that element changes.
#[verifier::external_body]
pub(crate) fn set_element(a: &mut ByteArray, row: usize, col: usize, value: u8)
    requires
        row < array_rows(*old(a)).len(),
        col < array_rows(*old(a))[row as int].len(),
    ensures
        array_rows(*final(a)) == array_rows(*old(a)).update(
            row as int,
            array_rows(*old(a))[row as int].update(col as int, value),
        ),
{
    a.cells[[row, col]] = value;
}

} // verus!
