//! Matrix-level algebraic laws, proved from the operation contracts and the
//! element type's identity and commutativity facts.

use vstd::prelude::*;

use crate::element::MatrixElement;
use crate::matrix::{all_equal, dot, dot_prefix, is_identity, is_product, is_sum, Matrix};

verus! {

/// Adding an all-zero matrix of the same shape leaves a matrix unchanged:
/// the sum has the same shape and the same contents as `a`.
pub proof fn lemma_add_zero_identity<T: MatrixElement>(a: Matrix<T>, z: Matrix<T>, m: Matrix<T>)
    requires
        a.wf(),
        z.wf(),
        a.same_shape(z),
        all_equal(z, T::zero_spec()),
        is_sum(m, a, z),
    ensures
        m.rows == a.rows,
        m.columns == a.columns,
        m.contents@ == a.contents@,
{
    assert forall|i: int| 0 <= i < m.contents@.len() implies m.contents@[i] == a.contents@[i] by {
        T::lemma_plus_zero(a.contents@[i]);
    }
    assert(m.contents@ =~= a.contents@);
}

/// Matrix addition commutes: the sums of `a` with `b` and of `b` with `a`
/// have the same shape and the same contents.
pub proof fn lemma_add_commutes<T: MatrixElement>(
    a: Matrix<T>,
    b: Matrix<T>,
    m1: Matrix<T>,
    m2: Matrix<T>,
)
    requires
        a.wf(),
        b.wf(),
        a.same_shape(b),
        is_sum(m1, a, b),
        is_sum(m2, b, a),
    ensures
        m1.rows == m2.rows,
        m1.columns == m2.columns,
        m1.contents@ == m2.contents@,
{
    assert forall|i: int| 0 <= i < m1.contents@.len() implies m1.contents@[i] == m2.contents@[i] by {
        T::lemma_plus_comm(a.contents@[i], b.contents@[i]);
    }
    assert(m1.contents@ =~= m2.contents@);
}

proof fn lemma_dot_prefix_identity<T: MatrixElement>(
    a: Matrix<T>,
    id: Matrix<T>,
    r: int,
    c: int,
    k: int,
)
    requires
        a.wf(),
        id.wf(),
        is_identity(id),
        id.rows == a.columns,
        0 <= r < a.rows,
        0 <= c < id.columns,
        0 <= k <= a.columns,
    ensures
        dot_prefix(a, id, r, c, k) == (if k <= c {
            T::zero_spec()
        } else {
            a.at(r, c)
        }),
    decreases k,
{
    if k > 0 {
        lemma_dot_prefix_identity(a, id, r, c, k - 1);
        if k <= c {
            T::lemma_times_zero(a.at(r, k - 1));
            T::lemma_plus_zero(T::zero_spec());
        } else if k == c + 1 {
            T::lemma_times_one(a.at(r, c));
            T::lemma_plus_zero(a.at(r, c));
        } else {
            T::lemma_times_zero(a.at(r, k - 1));
            T::lemma_plus_zero(a.at(r, c));
        }
    }
}

/// Multiplying by the identity matrix on the right leaves a matrix
/// unchanged: the product of `a` with an identity of matching size has the
/// same shape and the same contents as `a`.
pub proof fn lemma_multiply_identity<T: MatrixElement>(a: Matrix<T>, id: Matrix<T>, m: Matrix<T>)
    requires
        a.wf(),
        id.wf(),
        is_identity(id),
        id.rows == a.columns,
        is_product(m, a, id),
    ensures
        m.rows == a.rows,
        m.columns == a.columns,
        m.contents@ == a.contents@,
{
    let cols = a.columns as int;
    assert forall|r: int, c: int|
        0 <= r < a.rows && 0 <= c < cols implies #[trigger] m.at(r, c) == a.at(r, c) by {
        lemma_dot_prefix_identity(a, id, r, c, cols);
        assert(dot(a, id, r, c) == dot_prefix(a, id, r, c, cols));
    }
    assert forall|i: int| 0 <= i < m.contents@.len() implies m.contents@[i] == a.contents@[i] by {
        assert(cols > 0) by (nonlinear_arith)
            requires
                0 <= i < (a.rows as int) * cols,
                cols >= 0,
        ;
        vstd::arithmetic::div_mod::lemma_fundamental_div_mod(i, cols);
        vstd::arithmetic::div_mod::lemma_mod_bound(i, cols);
        let r = i / cols;
        let c = i % cols;
        assert(r < a.rows) by (nonlinear_arith)
            requires
                0 <= c < cols,
                i == cols * r + c,
                i < (a.rows as int) * cols,
                0 <= r,
        ;
        assert(m.at(r, c) == a.at(r, c));
        assert(r * cols + c == i) by (nonlinear_arith)
            requires
                i == cols * r + c,
        ;
    }
    assert(m.contents@ =~= a.contents@);
}

} // verus!
