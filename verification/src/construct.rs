//! The zero and identity matrices over `i64`, with their identity elements
//! obtained from the `num` crate.

use vstd::prelude::*;

use crate::view::{const_matrix, identity_matrix, lemma_index_to_position};
use crate::Matrix;

verus! {

/// Relies on `<i64 as num::Zero>::zero`, which returns the literal 0.
#[verifier::external_body]
fn i64_zero() -> (r: i64)
    ensures
        r == 0i64,
{
    num::Zero::zero()
}

/// Relies on `<i64 as num::One>::one`, which returns the literal 1.
#[verifier::external_body]
fn i64_one() -> (r: i64)
    ensures
        r == 1i64,
{
    num::One::one()
}

impl Matrix<i64> {
    /// A matrix whose every element is the additive identity.
    pub fn zero(rows: usize, columns: usize) -> (r: Matrix<i64>)
        requires
            (rows as int) * (columns as int) <= usize::MAX as int,
        ensures
            r@.wf(),
            r@ == const_matrix(rows as nat, columns as nat, 0i64),
    {
        let gen = |_i: usize, _j: usize| -> (v: i64)
            ensures
                v == 0i64,
            { i64_zero() };
        let r = Matrix::from_fn(rows, columns, gen);
        proof {
            let c = const_matrix(rows as nat, columns as nat, 0i64);
            assert forall|k: int| 0 <= k < r@.data.len() implies r@.data[k] == c.data[k] by {
                lemma_index_to_position(k, rows as int, columns as int);
                let i = k / (columns as int);
                let j = k % (columns as int);
                assert(r@.data[k] == r@.at(i, j));
            }
            assert(r@ =~= c);
        }
        r
    }

    /// The identity matrix generalized to any shape: position `(i, j)` holds
    /// the multiplicative identity when `i == j` and the additive identity
    /// everywhere else.
    pub fn one(rows: usize, columns: usize) -> (r: Matrix<i64>)
        requires
            (rows as int) * (columns as int) <= usize::MAX as int,
        ensures
            r@.wf(),
            r@ == identity_matrix(rows as nat, columns as nat, 0i64, 1i64),
    {
        let gen = |i: usize, j: usize| -> (v: i64)
            ensures
                v == (if i == j { 1i64 } else { 0i64 }),
            {
                if i == j {
                    i64_one()
                } else {
                    i64_zero()
                }
            };
        let r = Matrix::from_fn(rows, columns, gen);
        proof {
            let e = identity_matrix(rows as nat, columns as nat, 0i64, 1i64);
            assert forall|k: int| 0 <= k < r@.data.len() implies r@.data[k] == e.data[k] by {
                lemma_index_to_position(k, rows as int, columns as int);
                let i = k / (columns as int);
                let j = k % (columns as int);
                assert(r@.data[k] == r@.at(i, j));
            }
            assert(r@ =~= e);
        }
        r
    }
}

} // verus!
