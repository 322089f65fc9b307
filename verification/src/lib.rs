//! A two-dimensional matrix container: construction, indexing, transposition
//! and elementwise / linear-algebra arithmetic over a generic element type,
//! with contracts that pin down every element of every result.

use vstd::prelude::*;

pub mod arith;
pub mod construct;
pub mod laws;
pub mod render;
pub mod view;

use crate::view::{exact_clone, lemma_index_to_position, lemma_row_major_bound, lemma_row_major_inverse, transpose, MatrixView};

verus! {

/// A rectangular grid of elements of type `T`, stored in row-major order:
/// the element at position `(i, j)` lives at linear offset `i * columns + j`
/// of the backing vector, which holds exactly `rows * columns` elements.
///
/// Every shape- or value-changing operation builds a fresh matrix; a matrix
/// is never mutated after construction, so every constructor establishes the
/// well-formedness `self@.wf()` that the other operations ask for.
#[derive(Clone, Debug, PartialEq, Eq)]
pub struct Matrix<T> {
    rows: usize,
    columns: usize,
    data: Vec<T>,
}

impl<T> View for Matrix<T> {
    type V = MatrixView<T>;

    closed spec fn view(&self) -> MatrixView<T> {
        MatrixView { rows: self.rows as nat, columns: self.columns as nat, data: self.data@ }
    }
}

impl<T> Matrix<T> {
    /// Builds a `rows` by `columns` matrix by invoking `f(i, j)` for every
    /// position in row-major order. Zero-sized shapes are permitted and
    /// produce an empty backing vector; the only demand on the shape is that
    /// the element count fits the machine.
    pub fn from_fn<F: Fn(usize, usize) -> T>(rows: usize, columns: usize, f: F) -> (r: Matrix<T>)
        requires
            (rows as int) * (columns as int) <= usize::MAX as int,
            forall|i: usize, j: usize| i < rows && j < columns ==> #[trigger] f.requires((i, j)),
        ensures
            r@.wf(),
            r@.rows == rows as nat,
            r@.columns == columns as nat,
            forall|i: int, j: int|
                0 <= i < rows && 0 <= j < columns
                    ==> f.ensures(((i as usize), (j as usize)), #[trigger] r@.at(i, j)),
    {
        let total = rows * columns;
        let mut data: Vec<T> = Vec::new();
        let mut k: usize = 0;
        while k < total
            invariant
                k <= total,
                total == (rows as int) * (columns as int),
                forall|i2: usize, j2: usize|
                    i2 < rows && j2 < columns ==> #[trigger] f.requires((i2, j2)),
                data@.len() == k,
                forall|k2: int|
                    0 <= k2 < k
                        ==> f.ensures(
                            (((k2 / (columns as int)) as usize), ((k2 % (columns as int)) as usize)),
                            #[trigger] data@[k2],
                        ),
            decreases total - k,
        {
            proof {
                if columns == 0 {
                    assert((rows as int) * (columns as int) == 0) by (nonlinear_arith)
                        requires columns == 0;
                }
                lemma_index_to_position(k as int, rows as int, columns as int);
            }
            let i = k / columns;
            let j = k % columns;
            let v = f(i, j);
            data.push(v);
            k += 1;
        }
        let r = Matrix { rows, columns, data };
        proof {
            assert forall|i2: int, j2: int| 0 <= i2 < rows && 0 <= j2 < columns implies f.ensures(
                ((i2 as usize), (j2 as usize)),
                #[trigger] r@.at(i2, j2),
            ) by {
                lemma_row_major_bound(i2, j2, rows as int, columns as int);
                lemma_row_major_inverse(i2, j2, columns as int);
            }
        }
        r
    }

    /// Wraps a caller-supplied flat row-major vector as a matrix. A vector
    /// whose length differs from `rows * columns` is a contract violation,
    /// not a recoverable condition: the precondition rules it out.
    pub fn from_vec(rows: usize, columns: usize, data: Vec<T>) -> (r: Matrix<T>)
        requires
            (rows as int) * (columns as int) == data@.len(),
        ensures
            r@.wf(),
            r@.rows == rows as nat,
            r@.columns == columns as nat,
            r@.data == data@,
    {
        Matrix { rows, columns, data }
    }

    /// Returns the matrix's row and column counts.
    pub fn size(&self) -> (s: (usize, usize))
        ensures
            s.0 as nat == self@.rows,
            s.1 as nat == self@.columns,
    {
        (self.row(), self.column())
    }

    /// Returns the matrix's row count.
    pub fn row(&self) -> (r: usize)
        ensures
            r as nat == self@.rows,
    {
        self.rows
    }

    /// Returns the matrix's column count.
    pub fn column(&self) -> (c: usize)
        ensures
            c as nat == self@.columns,
    {
        self.columns
    }

    /// Returns a reference to the element at position `(i, j)`.
    ///
    /// An out-of-bounds position is a contract violation, not a recoverable
    /// condition: the precondition rules it out, and there is no checked
    /// variant.
    pub fn index(&self, i: usize, j: usize) -> (r: &T)
        requires
            self@.wf(),
            i < self@.rows,
            j < self@.columns,
        ensures
            *r == self@.at(i as int, j as int),
    {
        proof {
            lemma_row_major_bound(i as int, j as int, self.rows as int, self.columns as int);
            assert(self.data@.len() == (self.rows as int) * (self.columns as int));
            assert(self.data@.len() == self.data.len());
        }
        &self.data[i * self.columns + j]
    }
}

impl<T: Clone> Matrix<T> {
    /// Returns the transpose: a fresh `(columns, rows)` matrix whose position
    /// `(i, j)` holds a clone of this matrix's position `(j, i)`. When clones
    /// are indistinguishable from their originals the result is exactly the
    /// transpose of this matrix's model.
    pub fn trans(&self) -> (r: Matrix<T>)
        requires
            self@.wf(),
        ensures
            r@.wf(),
            r@.rows == self@.columns,
            r@.columns == self@.rows,
            forall|i: int, j: int|
                0 <= i < self@.columns && 0 <= j < self@.rows
                    ==> cloned::<T>(self@.at(j, i), #[trigger] r@.at(i, j)),
            exact_clone::<T>() ==> r@ == transpose(self@),
    {
        proof {
            assert((self.columns as int) * (self.rows as int)
                == (self.rows as int) * (self.columns as int)) by (nonlinear_arith);
            assert(self.data@.len() == self.data.len());
        }
        let rows = self.row();
        let columns = self.column();
        let gen = |i: usize, j: usize| -> (v: T)
            requires
                i < self@.columns,
                j < self@.rows,
            ensures
                cloned::<T>(self@.at(j as int, i as int), v),
            { self.index(j, i).clone() };
        let r = Matrix::from_fn(columns, rows, gen);
        proof {
            lemma_trans_view(self@, r@);
        }
        r
    }
}

/// A well-formed matrix whose positions each hold a clone of the mirrored
/// position of `m` is, when clones are exact, precisely the transpose of `m`.
proof fn lemma_trans_view<T: Clone>(m: MatrixView<T>, r: MatrixView<T>)
    requires
        m.wf(),
        r.wf(),
        r.rows == m.columns,
        r.columns == m.rows,
        forall|i: int, j: int|
            0 <= i < m.columns && 0 <= j < m.rows
                ==> cloned::<T>(m.at(j, i), #[trigger] r.at(i, j)),
    ensures
        exact_clone::<T>() ==> r == transpose(m),
{
    if exact_clone::<T>() {
        let t = transpose(m);
        assert forall|k: int| 0 <= k < r.data.len() implies r.data[k] == t.data[k] by {
            if m.rows > 0 {
                lemma_index_to_position(k, m.columns as int, m.rows as int);
                let i = k / (m.rows as int);
                let j = k % (m.rows as int);
                assert(r.data[k] == r.at(i, j));
                assert(cloned::<T>(m.at(j, i), r.at(i, j)));
                assert(t.data[k] == m.at(j, i));
            } else {
                assert((m.columns as int) * (m.rows as int) == 0) by (nonlinear_arith)
                    requires m.rows == 0;
            }
        }
        assert(r =~= t);
    }
}

} // verus!
