//! Row-major tables in flat buffers: where an entry lies, and that it lies
//! inside.

use vstd::prelude::*;
use vstd::arithmetic::div_mod::lemma_fundamental_div_mod_converse;

verus! {

/// Where the entry in row `row` and column `col` of a row-major table of
/// `width` columns lies in the flat buffer.
pub open spec fn flat(row: int, col: int, width: int) -> int {
    row * width + col
}

/// A flat position inside a table of `rows` rows lies inside the buffer, and
/// its row and column are recovered by division.
pub proof fn lemma_flat(row: int, col: int, rows: int, width: int)
    requires
        0 <= row < rows,
        0 <= col < width,
    ensures
        0 <= flat(row, col, width) < rows * width,
        row * width + width <= rows * width,
        flat(row, col, width) / width == row,
        flat(row, col, width) % width == col,
{
    assert(row * width + width <= rows * width) by (nonlinear_arith)
        requires
            0 <= row < rows,
            0 <= width,
    ;
    assert(0 <= row * width) by (nonlinear_arith)
        requires
            0 <= row,
            0 <= width,
    ;
    lemma_fundamental_div_mod_converse(row * width + col, width, row, col);
}

/// A buffer of `rows` rows of `width` values holds `rows` whole rows.
pub proof fn lemma_whole_rows(rows: nat, width: nat)
    requires
        width > 0,
    ensures
        (rows * width) % width == 0,
        (rows * width) / width == rows,
{
    vstd::arithmetic::div_mod::lemma_fundamental_div_mod_converse(
        (rows * width) as int,
        width as int,
        rows as int,
        0,
    );
}

/// A length that is a whole number of rows is its number of rows times the
/// width.
pub proof fn lemma_same_length(len: nat, width: nat)
    requires
        width > 0,
        len % width == 0,
    ensures
        (len / width) * width == len,
{
    vstd::arithmetic::div_mod::lemma_fundamental_div_mod(len as int, width as int);
    assert((len / width) * width == width * (len / width)) by (nonlinear_arith);
}

/// A copy of the slice.
pub fn copy_of<T: Copy>(s: &[T]) -> (r: Vec<T>)
    ensures
        r@ == s@,
{
    let count: usize = s.len();
    let mut r: Vec<T> = Vec::with_capacity(count);
    let mut k: usize = 0;
    while k < count
        invariant
            k <= count,
            count == s@.len(),
            r@ == s@.take(k as int),
        decreases count - k,
    {
        r.push(s[k]);
        assert(r@ =~= s@.take(k + 1));
        k += 1;
    }
    assert(s@.take(count as int) =~= s@);
    r
}

} // verus!
