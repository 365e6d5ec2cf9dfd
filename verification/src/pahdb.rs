//! Bringing records of different sizes to one shape.

use vstd::prelude::*;
use crate::qff::Qff;
use crate::scalar::{zero, Scalar};
use crate::shape::{copy_of, lemma_flat};

verus! {

/// One record as it is read: its target values, and its matrix row by row.
pub struct Record<T> {
    pub freqs: Vec<T>,
    pub lxm: Vec<Vec<T>>,
}

/// A set of records brought to one shape and laid out flat.
pub struct Load<T> {
    /// The targets of all records, each padded to `max_freqs`.
    pub freqs: Vec<T>,
    /// The matrices of all records, each `max_row` by `max_col`.
    pub lxm: Vec<T>,
    pub max_freqs: usize,
    pub max_row: usize,
    pub max_col: usize,
    /// The number of records.
    pub count: usize,
}

/// The rows of a matrix as sequences.
pub open spec fn matrix_of<T>(lxm: Seq<Vec<T>>) -> Seq<Seq<T>> {
    Seq::new(lxm.len(), |i: int| lxm[i]@)
}

/// The matrix rows among the first `n` lines of a record's text: every line
/// after the first that holds a value, in order.
pub open spec fn rows_of<T>(lines: Seq<Vec<T>>, n: nat) -> Seq<Seq<T>>
    decreases n,
{
    if n <= 1 {
        Seq::empty()
    } else {
        let rest = rows_of(lines, (n - 1) as nat);
        if lines[n - 1]@.len() == 0 {
            rest
        } else {
            rest.push(lines[n - 1]@)
        }
    }
}

/// Reads a record off the values of its lines: the first line holds the
/// targets, and each later line that is not blank is a row of the matrix.
pub fn record<T: Copy>(lines: &Vec<Vec<T>>) -> (r: Record<T>)
    requires
        lines@.len() > 0,
    ensures
        r.freqs@ == lines@[0]@,
        matrix_of(r.lxm@) == rows_of(lines@, lines@.len()),
{
    let count: usize = lines.len();
    let freqs: Vec<T> = copy_of(lines[0].as_slice());
    let mut lxm: Vec<Vec<T>> = Vec::new();
    let mut k: usize = 1;
    while k < count
        invariant
            1 <= k <= count,
            count == lines@.len(),
            matrix_of(lxm@) == rows_of(lines@, k as nat),
        decreases count - k,
    {
        if lines[k].len() != 0 {
            let row: Vec<T> = copy_of(lines[k].as_slice());
            lxm.push(row);
            assert(matrix_of(lxm@) =~= rows_of(lines@, k as nat).push(lines@[k as int]@));
        }
        k += 1;
    }
    Record { freqs, lxm }
}

/// Out of ten records, how many are trained on; the rest validate.
pub const TRAINING_TENTHS: usize = 7;

/// Where a list of `count` records is cut in two: the records before the
/// cut are trained on, those from it on validate.
pub fn pivot(count: usize) -> (r: usize)
    requires
        count * TRAINING_TENTHS <= usize::MAX,
    ensures
        r == count * TRAINING_TENTHS / 10,
        r <= count,
{
    count * TRAINING_TENTHS / 10
}

/// A matrix has a first row, and no row is shorter than the first.
pub open spec fn rows_reach<T>(v: Seq<Vec<T>>) -> bool {
    &&& v.len() > 0
    &&& forall|i: int| 0 <= i < v.len() ==> #[trigger] v[i]@.len() >= v[0]@.len()
}

/// `t` is `v` with rows and columns exchanged, as far as the first row of
/// `v` reaches.
pub open spec fn is_transpose<T>(v: Seq<Vec<T>>, t: Seq<Vec<T>>) -> bool {
    &&& t.len() == v[0]@.len()
    &&& forall|j: int| 0 <= j < t.len() ==> #[trigger] t[j]@.len() == v.len()
    &&& forall|j: int, i: int|
        0 <= j < t.len() && 0 <= i < v.len() ==> #[trigger] t[j]@[i] == v[i]@[j]
}

/// Exchanges rows and columns.
pub fn transpose<T: Copy>(v: &Vec<Vec<T>>) -> (ret: Vec<Vec<T>>)
    requires
        rows_reach(v@),
    ensures
        is_transpose(v@, ret@),
{
    let rows: usize = v.len();
    let cols: usize = v[0].len();
    let mut ret: Vec<Vec<T>> = Vec::with_capacity(cols);
    let mut j: usize = 0;
    while j < cols
        invariant
            j <= cols,
            rows == v@.len(),
            cols == v@[0]@.len(),
            rows_reach(v@),
            ret@.len() == j,
            forall|jj: int| 0 <= jj < j ==> #[trigger] ret@[jj]@.len() == rows,
            forall|jj: int, i: int|
                0 <= jj < j && 0 <= i < rows ==> #[trigger] ret@[jj]@[i] == v@[i]@[jj],
        decreases cols - j,
    {
        let mut row: Vec<T> = Vec::with_capacity(rows);
        let mut i: usize = 0;
        while i < rows
            invariant
                i <= rows,
                j < cols,
                rows == v@.len(),
                cols == v@[0]@.len(),
                rows_reach(v@),
                row@.len() == i,
                forall|ii: int| 0 <= ii < i ==> #[trigger] row@[ii] == v@[ii]@[j as int],
            decreases rows - i,
        {
            assert(v@[i as int]@.len() >= cols);
            row.push(v[i][j]);
            i += 1;
        }
        ret.push(row);
        j += 1;
    }
    ret
}

/// The longest target vector among the first `n` records.
pub open spec fn longest_freqs<T>(records: Seq<Record<T>>, n: nat) -> nat
    decreases n,
{
    if n == 0 {
        0
    } else {
        let rest = longest_freqs(records, (n - 1) as nat);
        let here = records[n - 1].freqs@.len();
        if here > rest {
            here
        } else {
            rest
        }
    }
}

/// The largest number of matrix rows among the first `n` records.
pub open spec fn most_rows<T>(records: Seq<Record<T>>, n: nat) -> nat
    decreases n,
{
    if n == 0 {
        0
    } else {
        let rest = most_rows(records, (n - 1) as nat);
        let here = records[n - 1].lxm@.len();
        if here > rest {
            here
        } else {
            rest
        }
    }
}

/// The number of columns of a matrix, which is the length of its first row.
pub open spec fn columns<T>(lxm: Seq<Vec<T>>) -> nat {
    if lxm.len() == 0 {
        0
    } else {
        lxm[0]@.len()
    }
}

/// The largest number of matrix columns among the first `n` records.
pub open spec fn most_cols<T>(records: Seq<Record<T>>, n: nat) -> nat
    decreases n,
{
    if n == 0 {
        0
    } else {
        let rest = most_cols(records, (n - 1) as nat);
        let here = columns(records[n - 1].lxm@);
        if here > rest {
            here
        } else {
            rest
        }
    }
}

/// Target `f` of a record, and zero past its last target.
pub open spec fn padded_freq<T: Scalar>(r: Record<T>, f: int) -> T {
    if f < r.freqs@.len() {
        r.freqs@[f]
    } else {
        zero::<T>()
    }
}

/// Entry `[j, i]` of the exchanged matrix of a record, and zero outside it.
pub open spec fn padded_cell<T: Scalar>(r: Record<T>, j: int, i: int) -> T {
    if j < columns(r.lxm@) && i < r.lxm@.len() {
        r.lxm@[i]@[j]
    } else {
        zero::<T>()
    }
}

/// The targets of all records in a row, each padded with zeros to `width`.
pub open spec fn flat_freqs<T: Scalar>(records: Seq<Record<T>>, width: nat) -> Seq<T> {
    Seq::new(
        records.len() * width,
        |k: int| padded_freq(records[k / (width as int)], k % (width as int)),
    )
}

/// The exchanged matrices of all records in a row, each brought to `rows`
/// rows of `cols` entries: cut where it is larger, zero where it is smaller.
pub open spec fn flat_cells<T: Scalar>(records: Seq<Record<T>>, rows: nat, cols: nat) -> Seq<T> {
    Seq::new(
        records.len() * (rows * cols),
        |k: int|
            {
                let within = k % ((rows * cols) as int);
                padded_cell(
                    records[k / ((rows * cols) as int)],
                    within / (cols as int),
                    within % (cols as int),
                )
            },
    )
}

/// Every record has a matrix whose rows reach, see [`rows_reach`].
pub open spec fn readable<T>(records: Seq<Record<T>>) -> bool {
    forall|k: int| 0 <= k < records.len() ==> rows_reach(#[trigger] records[k].lxm@)
}

/// Brings a set of records to one shape: every target vector is padded with
/// zeros to the longest; every matrix has its rows and columns exchanged and
/// is then brought to as many rows as the largest row count read, and as
/// many columns as the largest column count read.
pub fn assemble<T: Scalar>(records: Vec<Record<T>>) -> (r: Load<T>)
    requires
        readable(records@),
    ensures
        r.count == records@.len(),
        r.max_freqs == longest_freqs(records@, records@.len()),
        r.max_row == most_rows(records@, records@.len()),
        r.max_col == most_cols(records@, records@.len()),
        r.freqs@ == flat_freqs(records@, r.max_freqs as nat),
        r.lxm@ == flat_cells(records@, r.max_row as nat, r.max_col as nat),
{
    let count: usize = records.len();
    let mut max_freqs: usize = 0;
    let mut max_row: usize = 0;
    let mut max_col: usize = 0;
    let mut k: usize = 0;
    while k < count
        invariant
            k <= count,
            count == records@.len(),
            readable(records@),
            max_freqs == longest_freqs(records@, k as nat),
            max_row == most_rows(records@, k as nat),
            max_col == most_cols(records@, k as nat),
        decreases count - k,
    {
        let record = &records[k];
        assert(rows_reach(record.lxm@));
        let here: usize = record.freqs.len();
        if here > max_freqs {
            max_freqs = here;
        }
        let rows: usize = record.lxm.len();
        if rows > max_row {
            max_row = rows;
        }
        let cols: usize = record.lxm[0].len();
        if cols > max_col {
            max_col = cols;
        }
        k += 1;
    }
    let pad: T = T::count(0);
    let mut freqs: Vec<T> = Vec::new();
    let mut k: usize = 0;
    while k < count
        invariant
            k <= count,
            count == records@.len(),
            pad == zero::<T>(),
            freqs@.len() == k * max_freqs,
            forall|p: int|
                0 <= p < freqs@.len() ==> #[trigger] freqs@[p] == padded_freq(
                    records@[p / (max_freqs as int)],
                    p % (max_freqs as int),
                ),
        decreases count - k,
    {
        let record = &records[k];
        let mut f: usize = 0;
        while f < max_freqs
            invariant
                f <= max_freqs,
                k < count,
                count == records@.len(),
                *record == records@[k as int],
                pad == zero::<T>(),
                freqs@.len() == k * max_freqs + f,
                forall|p: int|
                    0 <= p < freqs@.len() ==> #[trigger] freqs@[p] == padded_freq(
                        records@[p / (max_freqs as int)],
                        p % (max_freqs as int),
                    ),
            decreases max_freqs - f,
        {
            let value: T = if f < record.freqs.len() {
                record.freqs[f]
            } else {
                pad
            };
            proof {
                lemma_flat(k as int, f as int, count as int, max_freqs as int);
            }
            freqs.push(value);
            f += 1;
        }
        proof {
            assert(k * max_freqs + max_freqs == (k + 1) * max_freqs) by (nonlinear_arith);
        }
        k += 1;
    }
    let ghost block: nat = (max_row * max_col) as nat;
    let mut lxm: Vec<T> = Vec::new();
    let mut k: usize = 0;
    while k < count
        invariant
            k <= count,
            count == records@.len(),
            readable(records@),
            block == max_row * max_col,
            pad == zero::<T>(),
            lxm@.len() == k * block,
            forall|p: int|
                0 <= p < lxm@.len() ==> #[trigger] lxm@[p] == padded_cell(
                    records@[p / (block as int)],
                    (p % (block as int)) / (max_col as int),
                    (p % (block as int)) % (max_col as int),
                ),
        decreases count - k,
    {
        let record = &records[k];
        assert(rows_reach(record.lxm@));
        let exchanged: Vec<Vec<T>> = transpose(&record.lxm);
        let rows: usize = record.lxm.len();
        let cols: usize = exchanged.len();
        let mut j: usize = 0;
        while j < max_row
            invariant
                j <= max_row,
                k < count,
                count == records@.len(),
                *record == records@[k as int],
                rows_reach(record.lxm@),
                is_transpose(record.lxm@, exchanged@),
                rows == record.lxm@.len(),
                cols == columns(record.lxm@),
                block == max_row * max_col,
                pad == zero::<T>(),
                lxm@.len() == k * block + j * max_col,
                forall|p: int|
                    0 <= p < lxm@.len() ==> #[trigger] lxm@[p] == padded_cell(
                        records@[p / (block as int)],
                        (p % (block as int)) / (max_col as int),
                        (p % (block as int)) % (max_col as int),
                    ),
            decreases max_row - j,
        {
            let mut i: usize = 0;
            while i < max_col
                invariant
                    i <= max_col,
                    j < max_row,
                    k < count,
                    count == records@.len(),
                    *record == records@[k as int],
                    rows_reach(record.lxm@),
                    is_transpose(record.lxm@, exchanged@),
                    rows == record.lxm@.len(),
                    cols == columns(record.lxm@),
                    block == max_row * max_col,
                    pad == zero::<T>(),
                    lxm@.len() == k * block + j * max_col + i,
                    forall|p: int|
                        0 <= p < lxm@.len() ==> #[trigger] lxm@[p] == padded_cell(
                            records@[p / (block as int)],
                            (p % (block as int)) / (max_col as int),
                            (p % (block as int)) % (max_col as int),
                        ),
                decreases max_col - i,
            {
                let value: T = if j < cols && i < rows {
                    assert(exchanged@[j as int]@.len() == rows);
                    exchanged[j][i]
                } else {
                    pad
                };
                proof {
                    lemma_flat(j as int, i as int, max_row as int, max_col as int);
                    lemma_flat(
                        k as int,
                        j * max_col + i,
                        count as int,
                        block as int,
                    );
                }
                lxm.push(value);
                i += 1;
            }
            proof {
                assert(j * max_col + max_col == (j + 1) * max_col) by (nonlinear_arith);
            }
            j += 1;
        }
        proof {
            assert(k * block + block == (k + 1) * block) by (nonlinear_arith);
        }
        k += 1;
    }
    proof {
        assert(freqs@ =~= flat_freqs(records@, max_freqs as nat));
        assert(lxm@ =~= flat_cells(records@, max_row as nat, max_col as nat));
    }
    Load { freqs, lxm, max_freqs, max_row, max_col, count }
}

/// The dataset made of a training load and a validation load. The shape is
/// that of the training load: a matrix counts `max_row * max_col` values,
/// and a record has `max_freqs` targets, which is also how wide the
/// network's result is.
pub fn dataset<T: Scalar>(train: Load<T>, test: Load<T>) -> (r: Qff<T>)
    requires
        train.max_row * train.max_col <= usize::MAX,
    ensures
        r.train_data == train.lxm,
        r.train_labels == train.freqs,
        r.test_data == test.lxm,
        r.test_labels == test.freqs,
        r.input_size == train.max_row * train.max_col,
        r.label_size == train.max_freqs,
        r.output_size == train.max_freqs,
        r.data_size == train.count,
{
    Qff {
        train_data: train.lxm,
        train_labels: train.freqs,
        test_data: test.lxm,
        test_labels: test.freqs,
        input_size: train.max_row * train.max_col,
        label_size: train.max_freqs,
        output_size: train.max_freqs,
        data_size: train.count,
    }
}

} // verus!
