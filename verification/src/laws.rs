//! Algebraic laws of the matrix operations, stated over the mathematical
//! model and proved once for every element type that satisfies their
//! hypotheses.

use vstd::prelude::*;
use vstd::std_specs::ops::{AddSpec, MulSpec};

use crate::view::{
    col_seq, const_matrix, dot_prefix, identity_matrix, lemma_index_to_position,
    lemma_row_major_bound, lemma_row_major_inverse, matrix_add, matrix_mul, row_seq, transpose,
    MatrixView,
};

verus! {

/// Position `(i, j)` of the transpose holds position `(j, i)` of `m`.
pub proof fn lemma_transpose_at<T>(m: MatrixView<T>, i: int, j: int)
    requires
        m.wf(),
        0 <= i < m.columns,
        0 <= j < m.rows,
    ensures
        transpose(m).at(i, j) == m.at(j, i),
{
    lemma_row_major_bound(i, j, m.columns as int, m.rows as int);
    lemma_row_major_inverse(i, j, m.rows as int);
}

/// Transposition is an involution: transposing any well-formed matrix twice
/// yields the original matrix.
pub proof fn lemma_transpose_involution<T>(m: MatrixView<T>)
    requires
        m.wf(),
    ensures
        transpose(transpose(m)) == m,
{
    let t = transpose(m);
    let u = transpose(t);
    assert((m.columns as int) * (m.rows as int) == (m.rows as int) * (m.columns as int))
        by (nonlinear_arith);
    assert(t.wf());
    assert forall|k: int| 0 <= k < u.data.len() implies u.data[k] == m.data[k] by {
        if m.columns > 0 {
            lemma_index_to_position(k, m.rows as int, m.columns as int);
            let i = k / (m.columns as int);
            let j = k % (m.columns as int);
            lemma_transpose_at(t, i, j);
            lemma_transpose_at(m, j, i);
            assert(u.data[k] == u.at(i, j));
            assert(m.at(i, j) == m.data[k]);
        } else {
            assert((m.rows as int) * (m.columns as int) == 0) by (nonlinear_arith)
                requires m.columns == 0;
        }
    }
    assert(u =~= m);
}

/// The all-zero matrix is neutral for elementwise addition: adding the zero
/// matrix of its own shape to any well-formed matrix yields the matrix
/// itself, provided `z` is a right identity of element addition.
pub proof fn lemma_add_zero<T: core::ops::Add<T, Output = T>>(m: MatrixView<T>, z: T)
    requires
        m.wf(),
        forall|x: T| #[trigger] x.add_spec(z) == x,
    ensures
        matrix_add(m, const_matrix(m.rows, m.columns, z)) == m,
{
    let c = const_matrix(m.rows, m.columns, z);
    let s = matrix_add(m, c);
    assert forall|k: int| 0 <= k < s.data.len() implies s.data[k] == m.data[k] by {
        assert(c.data[k] == z);
        assert(s.data[k] == m.data[k].add_spec(z));
    }
    assert(s =~= m);
}

/// Column `j` of the square identity matrix is the unit column holding `o`
/// at row `j` and `z` everywhere else.
proof fn lemma_unit_column<T>(n: nat, z: T, o: T, j: int, k: int)
    requires
        0 <= j < n,
        0 <= k < n,
    ensures
        col_seq(identity_matrix(n, n, z, o), j)[k] == (if k == j {
            o
        } else {
            z
        }),
{
    lemma_row_major_bound(k, j, n as int, n as int);
    lemma_row_major_inverse(k, j, n as int);
}

/// Folding a row against a unit column selects the row's `j`-th element:
/// the running sum stays `z` until the `o` term is reached and is unchanged
/// by every later `z` term.
proof fn lemma_dot_unit_prefix<T>(a: Seq<T>, b: Seq<T>, j: int, z: T, o: T, n: int)
    where T: core::ops::Mul<T, Output = T> + core::ops::Add<T, Output = T>
    requires
        a.len() == b.len(),
        0 <= j < a.len(),
        1 <= n <= a.len(),
        forall|k: int| 0 <= k < b.len() ==> b[k] == (if k == j {
            o
        } else {
            z
        }),
        forall|x: T| #[trigger] x.mul_spec(o) == x,
        forall|x: T| #[trigger] x.mul_spec(z) == z,
        forall|x: T| #[trigger] x.add_spec(z) == x,
        forall|x: T| #[trigger] z.add_spec(x) == x,
    ensures
        dot_prefix(a, b, n) == (if n <= j {
            z
        } else {
            a[j]
        }),
    decreases n,
{
    if n > 1 {
        lemma_dot_unit_prefix(a, b, j, z, o, n - 1);
    }
}

/// The identity matrix is neutral for the matrix product: any well-formed
/// matrix with a positive column count times the identity matrix of matching
/// size yields the matrix itself, provided `o` is a right identity of
/// element multiplication, `z` annihilates it, and `z` is a two-sided
/// identity of element addition.
pub proof fn lemma_mul_one<T>(m: MatrixView<T>, z: T, o: T)
    where T: core::ops::Mul<T, Output = T> + core::ops::Add<T, Output = T> + Clone
    requires
        m.wf(),
        0 < m.columns,
        forall|x: T| #[trigger] x.mul_spec(o) == x,
        forall|x: T| #[trigger] x.mul_spec(z) == z,
        forall|x: T| #[trigger] x.add_spec(z) == x,
        forall|x: T| #[trigger] z.add_spec(x) == x,
    ensures
        matrix_mul(m, identity_matrix(m.columns, m.columns, z, o)) == m,
{
    let n = m.columns;
    let e = identity_matrix(n, n, z, o);
    let p = matrix_mul(m, e);
    assert(e.wf());
    assert forall|k: int| 0 <= k < p.data.len() implies p.data[k] == m.data[k] by {
        lemma_index_to_position(k, m.rows as int, m.columns as int);
        let i = k / (m.columns as int);
        let j = k % (m.columns as int);
        let a = row_seq(m, i);
        let b = col_seq(e, j);
        assert forall|k2: int| 0 <= k2 < b.len() implies b[k2] == (if k2 == j {
            o
        } else {
            z
        }) by {
            lemma_unit_column(n, z, o, j, k2);
        }
        lemma_dot_unit_prefix(a, b, j, z, o, a.len() as int);
        assert(a[j] == m.at(i, j));
        assert(p.data[k] == dot_prefix(a, b, a.len() as int));
        assert(m.at(i, j) == m.data[k]);
    }
    assert(p =~= m);
}

} // verus!
