//! Elementwise addition and subtraction, and the dense matrix product.
//!
//! Each operation is generic over the element types and their operator
//! traits. The contracts are exact in the regime where element arithmetic
//! obeys its specification and clones are indistinguishable from their
//! originals (`add_exact`, `sub_exact`, `mul_exact`), which holds of the
//! primitive integer types; outside that regime (approximate types whose
//! arithmetic the machine does not pin down) only the shape is promised.

use vstd::prelude::*;
use vstd::std_specs::ops::{AddSpec, MulSpec, SubSpec};

use crate::view::{
    add_exact, col_seq, dot, dot_prefix, lemma_index_to_position, lemma_row_major_bound,
    matrix_add, matrix_mul, matrix_sub, mul_exact, row_seq, sub_exact, MatrixView,
};
use crate::Matrix;

verus! {

/// Every element addition that an elementwise sum of `a` and `b` performs is
/// defined: in the exact regime the paired elements admit addition, and
/// otherwise every pair of element values must.
pub open spec fn add_req_ok<L: core::ops::Add<R> + Clone, R: Clone>(
    a: MatrixView<L>,
    b: MatrixView<R>,
) -> bool {
    if add_exact::<L, R>() {
        forall|k: int| 0 <= k < a.data.len() ==> #[trigger] a.data[k].add_req(b.data[k])
    } else {
        forall|x: L, y: R| #[trigger] x.add_req(y)
    }
}

/// Every element subtraction that an elementwise difference of `a` and `b`
/// performs is defined.
pub open spec fn sub_req_ok<L: core::ops::Sub<R> + Clone, R: Clone>(
    a: MatrixView<L>,
    b: MatrixView<R>,
) -> bool {
    if sub_exact::<L, R>() {
        forall|k: int| 0 <= k < a.data.len() ==> #[trigger] a.data[k].sub_req(b.data[k])
    } else {
        forall|x: L, y: R| #[trigger] x.sub_req(y)
    }
}

/// Every element multiplication and every accumulating addition that the
/// product of `a` and `b` performs, in its exact left-to-right order, is
/// defined: in the exact regime the paired elements admit multiplication and
/// each running sum admits the next term, and otherwise every pair of values
/// must.
pub open spec fn mul_req_ok<L: core::ops::Mul<R> + Clone, R: Clone>(
    a: MatrixView<L>,
    b: MatrixView<R>,
) -> bool
    where <L as core::ops::Mul<R>>::Output: core::ops::Add<Output = <L as core::ops::Mul<R>>::Output>
{
    if mul_exact::<L, R>() {
        &&& forall|i: int, k: int, j: int|
            0 <= i < a.rows && 0 <= k < a.columns && 0 <= j < b.columns
                ==> #[trigger] a.at(i, k).mul_req(b.at(k, j))
        &&& forall|i: int, j: int, n: int|
            0 <= i < a.rows && 0 <= j < b.columns && 1 <= n < a.columns
                ==> #[trigger] dot_prefix(row_seq(a, i), col_seq(b, j), n).add_req(
                    a.at(i, n).mul_spec(b.at(n, j)),
                )
    } else {
        (forall|x: L, y: R| #[trigger] x.mul_req(y))
            && (forall|
                p: <L as core::ops::Mul<R>>::Output,
                q: <L as core::ops::Mul<R>>::Output,
            | #[trigger] p.add_req(q))
    }
}

impl<Lhs> Matrix<Lhs> {
    /// The elementwise sum of two matrices of identical shape. Operands of
    /// unequal shape are a contract violation, never a degraded result: the
    /// precondition rules them out. In the exact regime the result is
    /// position for position the sum of the operands.
    pub fn add<Rhs>(&self, other: &Matrix<Rhs>) -> (r: Matrix<<Lhs as core::ops::Add<Rhs>>::Output>)
        where Lhs: core::ops::Add<Rhs> + Clone, Rhs: Clone,
        requires
            self@.wf(),
            other@.wf(),
            self@.rows == other@.rows,
            self@.columns == other@.columns,
            self@.rows * self@.columns <= usize::MAX,
            add_req_ok(self@, other@),
        ensures
            r@.wf(),
            r@.rows == self@.rows,
            r@.columns == self@.columns,
            add_exact::<Lhs, Rhs>() ==> r@ == matrix_add(self@, other@),
    {
        let rows = self.row();
        let columns = self.column();
        let gen = |i: usize, j: usize| -> (v: <Lhs as core::ops::Add<Rhs>>::Output)
            requires
                self@.wf(),
                other@.wf(),
                self@.rows == other@.rows,
                self@.columns == other@.columns,
                add_req_ok(self@, other@),
                i < self@.rows,
                j < self@.columns,
            ensures
                add_exact::<Lhs, Rhs>() ==> v == self@.at(i as int, j as int).add_spec(
                    other@.at(i as int, j as int),
                ),
            {
                let x = self.index(i, j).clone();
                let y = other.index(i, j).clone();
                proof {
                    lemma_row_major_bound(i as int, j as int, self@.rows as int, self@.columns as int);
                    assert(cloned::<Lhs>(self@.at(i as int, j as int), x));
                    assert(cloned::<Rhs>(other@.at(i as int, j as int), y));
                    if add_exact::<Lhs, Rhs>() {
                        assert(x == self@.at(i as int, j as int));
                        assert(y == other@.at(i as int, j as int));
                        assert(self@.data[i as int * (self@.columns as int) + j as int].add_req(
                            other@.data[i as int * (other@.columns as int) + j as int],
                        ));
                        assert(x.add_req(y));
                    } else {
                        assert(x.add_req(y));
                    }
                }
                x + y
            };
        let r = Matrix::from_fn(rows, columns, gen);
        proof {
            if add_exact::<Lhs, Rhs>() {
                let m = matrix_add(self@, other@);
                assert forall|k: int| 0 <= k < r@.data.len() implies r@.data[k] == m.data[k] by {
                    if self@.columns > 0 {
                        lemma_index_to_position(k, self@.rows as int, self@.columns as int);
                        let i = k / (self@.columns as int);
                        let j = k % (self@.columns as int);
                        assert(r@.data[k] == r@.at(i, j));
                        assert(self@.data[k] == self@.at(i, j));
                        assert(other@.data[k] == other@.at(i, j));
                        assert(r@.at(i, j) == self@.at(i, j).add_spec(other@.at(i, j)));
                        assert(m.data[k] == self@.data[k].add_spec(other@.data[k]));
                        assert(r@.data[k] == m.data[k]);
                    } else {
                        assert(r@.wf());
                        assert(r@.data.len() == r@.rows * r@.columns);
                        assert(r@.columns == 0);
                        assert(r@.rows * r@.columns == 0) by (nonlinear_arith)
                            requires r@.columns == 0;
                    }
                }
                assert(r@ =~= m);
            }
        }
        r
    }
}

impl<Lhs> Matrix<Lhs> {
    /// The elementwise difference of two matrices of identical shape, under
    /// the same contract shape as the sum.
    pub fn sub<Rhs>(&self, other: &Matrix<Rhs>) -> (r: Matrix<<Lhs as core::ops::Sub<Rhs>>::Output>)
        where Lhs: core::ops::Sub<Rhs> + Clone, Rhs: Clone,
        requires
            self@.wf(),
            other@.wf(),
            self@.rows == other@.rows,
            self@.columns == other@.columns,
            self@.rows * self@.columns <= usize::MAX,
            sub_req_ok(self@, other@),
        ensures
            r@.wf(),
            r@.rows == self@.rows,
            r@.columns == self@.columns,
            sub_exact::<Lhs, Rhs>() ==> r@ == matrix_sub(self@, other@),
    {
        let rows = self.row();
        let columns = self.column();
        let gen = |i: usize, j: usize| -> (v: <Lhs as core::ops::Sub<Rhs>>::Output)
            requires
                self@.wf(),
                other@.wf(),
                self@.rows == other@.rows,
                self@.columns == other@.columns,
                sub_req_ok(self@, other@),
                i < self@.rows,
                j < self@.columns,
            ensures
                sub_exact::<Lhs, Rhs>() ==> v == self@.at(i as int, j as int).sub_spec(
                    other@.at(i as int, j as int),
                ),
            {
                let x = self.index(i, j).clone();
                let y = other.index(i, j).clone();
                proof {
                    lemma_row_major_bound(i as int, j as int, self@.rows as int, self@.columns as int);
                    assert(cloned::<Lhs>(self@.at(i as int, j as int), x));
                    assert(cloned::<Rhs>(other@.at(i as int, j as int), y));
                    if sub_exact::<Lhs, Rhs>() {
                        assert(x == self@.at(i as int, j as int));
                        assert(y == other@.at(i as int, j as int));
                        assert(self@.data[i as int * (self@.columns as int) + j as int].sub_req(
                            other@.data[i as int * (other@.columns as int) + j as int],
                        ));
                        assert(x.sub_req(y));
                    } else {
                        assert(x.sub_req(y));
                    }
                }
                x - y
            };
        let r = Matrix::from_fn(rows, columns, gen);
        proof {
            if sub_exact::<Lhs, Rhs>() {
                let m = matrix_sub(self@, other@);
                assert forall|k: int| 0 <= k < r@.data.len() implies r@.data[k] == m.data[k] by {
                    if self@.columns > 0 {
                        lemma_index_to_position(k, self@.rows as int, self@.columns as int);
                        let i = k / (self@.columns as int);
                        let j = k % (self@.columns as int);
                        assert(r@.data[k] == r@.at(i, j));
                        assert(self@.data[k] == self@.at(i, j));
                        assert(other@.data[k] == other@.at(i, j));
                        assert(r@.at(i, j) == self@.at(i, j).sub_spec(other@.at(i, j)));
                        assert(m.data[k] == self@.data[k].sub_spec(other@.data[k]));
                        assert(r@.data[k] == m.data[k]);
                    } else {
                        assert(r@.data.len() == r@.rows * r@.columns);
                        assert(r@.rows * r@.columns == 0) by (nonlinear_arith)
                            requires r@.columns == 0;
                    }
                }
                assert(r@ =~= m);
            }
        }
        r
    }
}

impl<Lhs> Matrix<Lhs> {
    /// The dense matrix product. The operands' inner dimensions must agree,
    /// and the accumulation of each output element starts from its first
    /// product term rather than from a zero seed, so a zero inner dimension
    /// is ruled out by precondition rather than given a made-up value. Terms
    /// are folded in strictly increasing order of the inner index, which the
    /// spec-level dot product reproduces exactly.
    pub fn mul<Rhs>(&self, other: &Matrix<Rhs>) -> (r: Matrix<<Lhs as core::ops::Mul<Rhs>>::Output>)
        where
            Lhs: core::ops::Mul<Rhs> + Clone,
            Rhs: Clone,
            <Lhs as core::ops::Mul<Rhs>>::Output:
                core::ops::Add<Output = <Lhs as core::ops::Mul<Rhs>>::Output>,
        requires
            self@.wf(),
            other@.wf(),
            self@.columns == other@.rows,
            0 < self@.columns,
            self@.rows * other@.columns <= usize::MAX,
            mul_req_ok(self@, other@),
        ensures
            r@.wf(),
            r@.rows == self@.rows,
            r@.columns == other@.columns,
            mul_exact::<Lhs, Rhs>() ==> r@ == matrix_mul(self@, other@),
    {
        let rows = self.row();
        let columns = other.column();
        let gen = |i: usize, j: usize| -> (v: <Lhs as core::ops::Mul<Rhs>>::Output)
            requires
                self@.wf(),
                other@.wf(),
                self@.columns == other@.rows,
                0 < self@.columns,
                mul_req_ok(self@, other@),
                i < self@.rows,
                j < other@.columns,
            ensures
                mul_exact::<Lhs, Rhs>() ==> v == dot(
                    row_seq(self@, i as int),
                    col_seq(other@, j as int),
                ),
            {
                let inner = self.column();
                let xe = self.index(i, 0).clone();
                let ye = other.index(0, j).clone();
                proof {
                    assert(cloned::<Lhs>(self@.at(i as int, 0), xe));
                    assert(cloned::<Rhs>(other@.at(0, j as int), ye));
                    if mul_exact::<Lhs, Rhs>() {
                        assert(xe == self@.at(i as int, 0));
                        assert(ye == other@.at(0, j as int));
                        assert(self@.at(i as int, 0).mul_req(other@.at(0, j as int)));
                        assert(xe.mul_req(ye));
                    } else {
                        assert(xe.mul_req(ye));
                    }
                }
                let mut sum = xe * ye;
                proof {
                    if mul_exact::<Lhs, Rhs>() {
                        assert(row_seq(self@, i as int)[0] == self@.at(i as int, 0));
                        assert(col_seq(other@, j as int)[0] == other@.at(0, j as int));
                        assert(sum == dot_prefix(row_seq(self@, i as int), col_seq(other@, j as int), 1));
                    }
                }
                let mut k: usize = 1;
                while k < inner
                    invariant
                        self@.wf(),
                        other@.wf(),
                        self@.columns == other@.rows,
                        0 < self@.columns,
                        mul_req_ok(self@, other@),
                        i < self@.rows,
                        j < other@.columns,
                        inner as nat == self@.columns,
                        1 <= k <= inner,
                        mul_exact::<Lhs, Rhs>() ==> sum == dot_prefix(
                            row_seq(self@, i as int),
                            col_seq(other@, j as int),
                            k as int,
                        ),
                    decreases inner - k,
                {
                    let xt = self.index(i, k).clone();
                    let yt = other.index(k, j).clone();
                    proof {
                        assert(cloned::<Lhs>(self@.at(i as int, k as int), xt));
                        assert(cloned::<Rhs>(other@.at(k as int, j as int), yt));
                        if mul_exact::<Lhs, Rhs>() {
                            assert(xt == self@.at(i as int, k as int));
                            assert(yt == other@.at(k as int, j as int));
                            assert(self@.at(i as int, k as int).mul_req(other@.at(k as int, j as int)));
                            assert(xt.mul_req(yt));
                        } else {
                            assert(xt.mul_req(yt));
                        }
                    }
                    let t = xt * yt;
                    proof {
                        if mul_exact::<Lhs, Rhs>() {
                            assert(t == self@.at(i as int, k as int).mul_spec(other@.at(k as int, j as int)));
                            assert(dot_prefix(
                                row_seq(self@, i as int),
                                col_seq(other@, j as int),
                                k as int,
                            ).add_req(self@.at(i as int, k as int).mul_spec(other@.at(k as int, j as int))));
                            assert(sum.add_req(t));
                        } else {
                            assert(sum.add_req(t));
                        }
                    }
                    sum = sum + t;
                    proof {
                        if mul_exact::<Lhs, Rhs>() {
                            assert(row_seq(self@, i as int)[k as int] == self@.at(i as int, k as int));
                            assert(col_seq(other@, j as int)[k as int] == other@.at(k as int, j as int));
                            assert(sum == dot_prefix(
                                row_seq(self@, i as int),
                                col_seq(other@, j as int),
                                k as int + 1,
                            ));
                        }
                    }
                    k += 1;
                }
                proof {
                    if mul_exact::<Lhs, Rhs>() {
                        assert(row_seq(self@, i as int).len() == inner as int);
                    }
                }
                sum
            };
        let r = Matrix::from_fn(rows, columns, gen);
        proof {
            if mul_exact::<Lhs, Rhs>() {
                let m = matrix_mul(self@, other@);
                assert forall|k: int| 0 <= k < r@.data.len() implies r@.data[k] == m.data[k] by {
                    if other@.columns > 0 {
                        lemma_index_to_position(k, self@.rows as int, other@.columns as int);
                        let i = k / (other@.columns as int);
                        let j = k % (other@.columns as int);
                        assert(r@.data[k] == r@.at(i, j));
                        assert(m.data[k] == dot(row_seq(self@, i), col_seq(other@, j)));
                    }
                }
                assert(r@ =~= m);
            }
        }
        r
    }
}

} // verus!
