//! The mathematical model of a matrix, and the spec-level matrix operations
//! that the executable operations are proved against.

use vstd::prelude::*;
use vstd::std_specs::ops::{AddSpec, MulSpec, SubSpec};

verus! {

/// A matrix as mathematics sees it: a shape together with the row-major
/// sequence of its elements. The element at position `(i, j)` sits at linear
/// offset `i * columns + j`.
#[verifier::ext_equal]
pub struct MatrixView<T> {
    pub rows: nat,
    pub columns: nat,
    pub data: Seq<T>,
}

impl<T> MatrixView<T> {
    /// The data sequence holds exactly one element per logical position.
    pub open spec fn wf(self) -> bool {
        self.data.len() == self.rows * self.columns
    }

    /// The element at position `(i, j)`.
    pub open spec fn at(self, i: int, j: int) -> T {
        self.data[i * (self.columns as int) + j]
    }
}

/// The transpose of `m`: position `(i, j)` of the result holds position
/// `(j, i)` of `m`.
pub open spec fn transpose<T>(m: MatrixView<T>) -> MatrixView<T> {
    MatrixView {
        rows: m.columns,
        columns: m.rows,
        data: Seq::new(
            m.columns * m.rows,
            |k: int| m.at(k % (m.rows as int), k / (m.rows as int)),
        ),
    }
}

/// A matrix whose every element is `v`.
pub open spec fn const_matrix<T>(rows: nat, columns: nat, v: T) -> MatrixView<T> {
    MatrixView { rows, columns, data: Seq::new(rows * columns, |k: int| v) }
}

/// A matrix with `o` on the diagonal and `z` everywhere else; for non-square
/// shapes every position off the main diagonal holds `z`.
pub open spec fn identity_matrix<T>(rows: nat, columns: nat, z: T, o: T) -> MatrixView<T> {
    MatrixView {
        rows,
        columns,
        data: Seq::new(
            rows * columns,
            |k: int| if k / (columns as int) == k % (columns as int) {
                o
            } else {
                z
            },
        ),
    }
}

/// The elementwise sum: position `(i, j)` of the result is the sum of the two
/// operands' elements at `(i, j)`.
pub open spec fn matrix_add<L: core::ops::Add<R>, R>(
    a: MatrixView<L>,
    b: MatrixView<R>,
) -> MatrixView<<L as core::ops::Add<R>>::Output> {
    MatrixView {
        rows: a.rows,
        columns: a.columns,
        data: Seq::new(a.data.len(), |k: int| a.data[k].add_spec(b.data[k])),
    }
}

/// The elementwise difference: position `(i, j)` of the result is the
/// difference of the two operands' elements at `(i, j)`.
pub open spec fn matrix_sub<L: core::ops::Sub<R>, R>(
    a: MatrixView<L>,
    b: MatrixView<R>,
) -> MatrixView<<L as core::ops::Sub<R>>::Output> {
    MatrixView {
        rows: a.rows,
        columns: a.columns,
        data: Seq::new(a.data.len(), |k: int| a.data[k].sub_spec(b.data[k])),
    }
}

/// The first `n` terms of a product row dotted with a column, accumulated
/// left to right starting from the first product term; no zero seed is used,
/// so at least one term must exist.
pub open spec fn dot_prefix<L: core::ops::Mul<R>, R>(a: Seq<L>, b: Seq<R>, n: int) -> <L as core::ops::Mul<R>>::Output
    where <L as core::ops::Mul<R>>::Output: core::ops::Add<Output = <L as core::ops::Mul<R>>::Output>
    decreases n,
{
    if n <= 1 {
        a[0].mul_spec(b[0])
    } else {
        dot_prefix(a, b, n - 1).add_spec(a[n - 1].mul_spec(b[n - 1]))
    }
}

/// A full dot product of two sequences of equal positive length.
pub open spec fn dot<L: core::ops::Mul<R>, R>(a: Seq<L>, b: Seq<R>) -> <L as core::ops::Mul<R>>::Output
    where <L as core::ops::Mul<R>>::Output: core::ops::Add<Output = <L as core::ops::Mul<R>>::Output>
{
    dot_prefix(a, b, a.len() as int)
}

/// Row `i` of `m`, left to right.
pub open spec fn row_seq<T>(m: MatrixView<T>, i: int) -> Seq<T> {
    Seq::new(m.columns, |k: int| m.at(i, k))
}

/// Column `j` of `m`, top to bottom.
pub open spec fn col_seq<T>(m: MatrixView<T>, j: int) -> Seq<T> {
    Seq::new(m.rows, |k: int| m.at(k, j))
}

/// The matrix product: position `(i, j)` of the result is row `i` of `a`
/// dotted with column `j` of `b`.
pub open spec fn matrix_mul<L: core::ops::Mul<R> + Clone, R: Clone>(
    a: MatrixView<L>,
    b: MatrixView<R>,
) -> MatrixView<<L as core::ops::Mul<R>>::Output>
    where <L as core::ops::Mul<R>>::Output: core::ops::Add<Output = <L as core::ops::Mul<R>>::Output>
{
    MatrixView {
        rows: a.rows,
        columns: b.columns,
        data: Seq::new(
            a.rows * b.columns,
            |k: int| dot(row_seq(a, k / (b.columns as int)), col_seq(b, k % (b.columns as int))),
        ),
    }
}

/// Clones of a `T` value are indistinguishable from the original. This holds
/// of every `Copy` type and of the primitive numeric types.
pub open spec fn exact_clone<T: Clone>() -> bool {
    forall|x: T, y: T| cloned::<T>(x, y) ==> y == x
}

/// The regime in which elementwise addition is fully determined: element
/// addition obeys its arithmetic specification and cloning an operand element
/// preserves it.
pub open spec fn add_exact<L: core::ops::Add<R> + Clone, R: Clone>() -> bool {
    L::obeys_add_spec() && exact_clone::<L>() && exact_clone::<R>()
}

/// The regime in which elementwise subtraction is fully determined.
pub open spec fn sub_exact<L: core::ops::Sub<R> + Clone, R: Clone>() -> bool {
    L::obeys_sub_spec() && exact_clone::<L>() && exact_clone::<R>()
}

/// The regime in which the matrix product is fully determined: element
/// multiplication and the accumulating addition obey their arithmetic
/// specifications and cloning an operand element preserves it.
pub open spec fn mul_exact<L: core::ops::Mul<R> + Clone, R: Clone>() -> bool
    where <L as core::ops::Mul<R>>::Output: core::ops::Add<Output = <L as core::ops::Mul<R>>::Output>
{
    L::obeys_mul_spec()
        && <<L as core::ops::Mul<R>>::Output as AddSpec>::obeys_add_spec()
        && exact_clone::<L>()
        && exact_clone::<R>()
}

/// A row-major offset lies below the total element count.
pub proof fn lemma_row_major_bound(i: int, j: int, rows: int, columns: int)
    by (nonlinear_arith)
    requires
        0 <= i < rows,
        0 <= j < columns,
    ensures
        0 <= i * columns + j < rows * columns,
{
}

/// Division and remainder recover the position behind a row-major offset.
pub proof fn lemma_row_major_inverse(i: int, j: int, columns: int)
    by (nonlinear_arith)
    requires
        0 <= i,
        0 <= j < columns,
    ensures
        (i * columns + j) / columns == i,
        (i * columns + j) % columns == j,
{
}

/// Every offset below the element count comes from exactly one position.
pub proof fn lemma_index_to_position(k: int, rows: int, columns: int)
    by (nonlinear_arith)
    requires
        0 <= k < rows * columns,
        0 < columns,
    ensures
        0 <= k / columns < rows,
        0 <= k % columns < columns,
        k == (k / columns) * columns + (k % columns),
{
}

} // verus!
