//! The matrix value type: shape metadata over a flat row-major buffer,
//! with verified construction and arithmetic.

use vstd::prelude::*;

use crate::element::MatrixElement;

verus! {

use vstd::arithmetic::div_mod::lemma_fundamental_div_mod_converse;

/// A dense matrix: `rows * columns` elements stored row-major, so that the
/// element at row `r`, column `c` sits at flat index `r * columns + c`.
#[derive(Debug, PartialEq, Eq)]
pub struct Matrix<T> {
    pub rows: usize,
    pub columns: usize,
    pub contents: Vec<T>,
}

/// The failures an operation can report.
#[derive(Debug, Clone, Copy, PartialEq, Eq, Structural)]
pub enum MatrixError {
    /// More initial elements were supplied than the declared shape holds.
    ShapeOverflow,
    /// The operand shapes do not fit the requested operation; both shapes
    /// are carried for diagnostics.
    DimensionMismatch {
        left_rows: usize,
        left_columns: usize,
        right_rows: usize,
        right_columns: usize,
    },
}

impl<T> Matrix<T> {
    /// The shape invariant: the buffer holds exactly `rows * columns`
    /// elements.
    pub open spec fn wf(self) -> bool {
        self.contents@.len() == (self.rows as int) * (self.columns as int)
    }

    /// The element at row `r`, column `c`.
    pub open spec fn at(self, r: int, c: int) -> T {
        self.contents@[r * (self.columns as int) + c]
    }

    /// Whether two matrices have the same shape.
    pub open spec fn same_shape(self, o: Matrix<T>) -> bool {
        self.rows == o.rows && self.columns == o.columns
    }
}

/// Every element of `m` equals `e`.
pub open spec fn all_equal<T>(m: Matrix<T>, e: T) -> bool {
    forall|i: int| 0 <= i < m.contents@.len() ==> m.contents@[i] == e
}

/// `m` is the element-wise sum of `a` and `b`.
pub open spec fn is_sum<T: MatrixElement>(m: Matrix<T>, a: Matrix<T>, b: Matrix<T>) -> bool {
    &&& m.rows == a.rows
    &&& m.columns == a.columns
    &&& m.contents@.len() == a.contents@.len()
    &&& forall|i: int|
        0 <= i < m.contents@.len() ==> #[trigger] m.contents@[i] == T::plus_spec(
            a.contents@[i],
            b.contents@[i],
        )
}

/// `m` is the element-wise (Hadamard) product of `a` and `b`.
pub open spec fn is_hadamard<T: MatrixElement>(m: Matrix<T>, a: Matrix<T>, b: Matrix<T>) -> bool {
    &&& m.rows == a.rows
    &&& m.columns == a.columns
    &&& m.contents@.len() == a.contents@.len()
    &&& forall|i: int|
        0 <= i < m.contents@.len() ==> #[trigger] m.contents@[i] == T::times_spec(
            a.contents@[i],
            b.contents@[i],
        )
}

/// The dot product of row `r` of `a` with column `c` of `b`, accumulated
/// over the first `k` inner positions: the accumulator starts at zero and
/// the products are added in ascending order of the inner index.
pub open spec fn dot_prefix<T: MatrixElement>(
    a: Matrix<T>,
    b: Matrix<T>,
    r: int,
    c: int,
    k: int,
) -> T
    decreases k,
{
    if k <= 0 {
        T::zero_spec()
    } else {
        T::plus_spec(dot_prefix(a, b, r, c, k - 1), T::times_spec(a.at(r, k - 1), b.at(k - 1, c)))
    }
}

/// The full dot product of row `r` of `a` with column `c` of `b`.
pub open spec fn dot<T: MatrixElement>(a: Matrix<T>, b: Matrix<T>, r: int, c: int) -> T {
    dot_prefix(a, b, r, c, a.columns as int)
}

/// `m` is the linear-algebra product of `a` and `b`.
pub open spec fn is_product<T: MatrixElement>(m: Matrix<T>, a: Matrix<T>, b: Matrix<T>) -> bool {
    &&& m.rows == a.rows
    &&& m.columns == b.columns
    &&& m.contents@.len() == (a.rows as int) * (b.columns as int)
    &&& forall|r: int, c: int|
        0 <= r < m.rows && 0 <= c < m.columns ==> #[trigger] m.at(r, c) == dot(a, b, r, c)
}

/// `m` is an identity matrix: square, with ones on the diagonal and zeroes
/// elsewhere.
pub open spec fn is_identity<T: MatrixElement>(m: Matrix<T>) -> bool {
    &&& m.rows == m.columns
    &&& forall|r: int, c: int|
        0 <= r < m.rows && 0 <= c < m.columns ==> #[trigger] m.at(r, c) == (if r == c {
            T::one_spec()
        } else {
            T::zero_spec()
        })
}

/// The first `count` flat entries of the product of `a` and `b`.
pub open spec fn product_prefix<T: MatrixElement>(
    a: Matrix<T>,
    b: Matrix<T>,
    count: int,
) -> Seq<T> {
    Seq::new(
        count as nat,
        |i: int| dot(a, b, i / (b.columns as int), i % (b.columns as int)),
    )
}

/// The first `count` flat entries of the `n` by `n` identity matrix.
pub open spec fn identity_prefix<T: MatrixElement>(n: int, count: int) -> Seq<T> {
    Seq::new(
        count as nat,
        |i: int|
            if i / n == i % n {
                T::one_spec()
            } else {
                T::zero_spec()
            },
    )
}

/// A flat row-major index is in bounds whenever its row and column are.
pub proof fn lemma_flat_index(r: int, c: int, rows: int, columns: int)
    requires
        0 <= r < rows,
        0 <= c < columns,
    ensures
        0 <= r * columns + c < rows * columns,
{
    assert(r * columns + c < rows * columns) by (nonlinear_arith)
        requires
            0 <= r < rows,
            0 <= c < columns,
    ;
}

/// A buffer that holds the full product prefix, under the product's shape,
/// is the product matrix.
proof fn lemma_product_prefix_full<T: MatrixElement>(m: Matrix<T>, a: Matrix<T>, b: Matrix<T>)
    requires
        m.rows == a.rows,
        m.columns == b.columns,
        m.contents@ == product_prefix(a, b, (a.rows as int) * (b.columns as int)),
    ensures
        m.wf(),
        is_product(m, a, b),
{
    let bc = b.columns as int;
    assert((a.rows as int) * bc >= 0) by (nonlinear_arith)
        requires
            a.rows as int >= 0,
            bc >= 0,
    ;
    assert forall|r: int, c: int|
        0 <= r < m.rows && 0 <= c < m.columns implies #[trigger] m.at(r, c) == dot(a, b, r, c) by {
        let i = r * bc + c;
        lemma_flat_index(r, c, m.rows as int, bc);
        lemma_fundamental_div_mod_converse(i, bc, r, c);
    }
}

impl<T: MatrixElement> Matrix<T> {
    /// Reads the element at row `r`, column `c`.
    pub fn entry(&self, r: usize, c: usize) -> (e: T)
        requires
            self.wf(),
            r < self.rows,
            c < self.columns,
        ensures
            e == self.at(r as int, c as int),
    {
        let n = self.contents.len();
        proof {
            lemma_flat_index(r as int, c as int, self.rows as int, self.columns as int);
        }
        self.contents[r * self.columns + c]
    }

    fn filled(rows: usize, columns: usize, e: T) -> (m: Matrix<T>)
        requires
            (rows as int) * (columns as int) <= usize::MAX,
        ensures
            m.wf(),
            m.rows == rows,
            m.columns == columns,
            all_equal(m, e),
    {
        let n: usize = rows * columns;
        let mut contents: Vec<T> = Vec::new();
        let mut i: usize = 0;
        while i < n
            invariant
                i <= n,
                contents@.len() == i,
                forall|j: int| 0 <= j < i ==> contents@[j] == e,
            decreases n - i,
        {
            contents.push(e);
            i += 1;
        }
        Matrix { rows, columns, contents }
    }

    /// A matrix of the given shape whose every element is the additive
    /// identity.
    pub fn zeroes(rows: usize, columns: usize) -> (m: Matrix<T>)
        requires
            (rows as int) * (columns as int) <= usize::MAX,
        ensures
            m.wf(),
            m.rows == rows,
            m.columns == columns,
            all_equal(m, T::zero_spec()),
    {
        Self::filled(rows, columns, T::zero())
    }

    /// A matrix of the given shape whose every element is the multiplicative
    /// identity.
    pub fn ones(rows: usize, columns: usize) -> (m: Matrix<T>)
        requires
            (rows as int) * (columns as int) <= usize::MAX,
        ensures
            m.wf(),
            m.rows == rows,
            m.columns == columns,
            all_equal(m, T::one_spec()),
    {
        Self::filled(rows, columns, T::one())
    }

    /// A matrix of the given shape populated with the given elements in
    /// row-major order. Supplying more elements than the shape holds fails
    /// with `ShapeOverflow`; supplying fewer pads the tail with the element
    /// type's zero.
    pub fn new(rows: usize, columns: usize, elements: Vec<T>) -> (result: Result<
        Matrix<T>,
        MatrixError,
    >)
        requires
            (rows as int) * (columns as int) <= usize::MAX,
        ensures
            match result {
                Ok(m) => {
                    &&& elements@.len() <= (rows as int) * (columns as int)
                    &&& m.wf()
                    &&& m.rows == rows
                    &&& m.columns == columns
                    &&& m.contents@ == elements@ + Seq::new(
                        ((rows as int) * (columns as int) - elements@.len()) as nat,
                        |i: int| T::zero_spec(),
                    )
                },
                Err(e) => {
                    &&& elements@.len() > (rows as int) * (columns as int)
                    &&& e == MatrixError::ShapeOverflow
                },
            },
    {
        let ghost given = elements@;
        let n: usize = rows * columns;
        if elements.len() > n {
            return Err(MatrixError::ShapeOverflow);
        }
        let mut contents = elements;
        while contents.len() < n
            invariant
                given.len() <= contents@.len() <= n,
                contents@.subrange(0, given.len() as int) == given,
                forall|j: int| given.len() <= j < contents@.len() ==> contents@[j] == T::zero_spec(),
            decreases n - contents.len(),
        {
            contents.push(T::zero());
            assert(contents@.subrange(0, given.len() as int) =~= given);
        }
        assert(contents@ =~= given + Seq::new(
            ((rows as int) * (columns as int) - given.len()) as nat,
            |i: int| T::zero_spec(),
        ));
        Ok(Matrix { rows, columns, contents })
    }

    /// Element-wise addition. The operands must share a shape; otherwise the
    /// call fails with `DimensionMismatch` carrying both shapes.
    pub fn add(self, o: Matrix<T>) -> (result: Result<Matrix<T>, MatrixError>)
        requires
            self.wf(),
            o.wf(),
        ensures
            match result {
                Ok(m) => {
                    &&& self.same_shape(o)
                    &&& m.wf()
                    &&& is_sum(m, self, o)
                },
                Err(e) => {
                    &&& !self.same_shape(o)
                    &&& e == (MatrixError::DimensionMismatch {
                        left_rows: self.rows,
                        left_columns: self.columns,
                        right_rows: o.rows,
                        right_columns: o.columns,
                    })
                },
            },
    {
        if self.rows != o.rows || self.columns != o.columns {
            return Err(MatrixError::DimensionMismatch {
                left_rows: self.rows,
                left_columns: self.columns,
                right_rows: o.rows,
                right_columns: o.columns,
            });
        }
        let n = self.contents.len();
        let mut contents: Vec<T> = Vec::new();
        let mut i: usize = 0;
        while i < n
            invariant
                i <= n,
                n == self.contents@.len(),
                n == o.contents@.len(),
                contents@.len() == i,
                forall|j: int|
                    0 <= j < i ==> #[trigger] contents@[j] == T::plus_spec(
                        self.contents@[j],
                        o.contents@[j],
                    ),
            decreases n - i,
        {
            contents.push(T::plus(self.contents[i], o.contents[i]));
            i += 1;
        }
        Ok(Matrix { rows: self.rows, columns: self.columns, contents })
    }

    /// Linear-algebra multiplication. The inner dimensions must agree
    /// (`self.columns == o.rows`); otherwise the call fails with
    /// `DimensionMismatch` carrying both shapes. Each result element is the
    /// dot product of a row of `self` with a column of `o`, accumulated in
    /// ascending order of the inner index.
    pub fn multiply(self, o: Matrix<T>) -> (result: Result<Matrix<T>, MatrixError>)
        requires
            self.wf(),
            o.wf(),
        ensures
            match result {
                Ok(m) => {
                    &&& self.columns == o.rows
                    &&& m.wf()
                    &&& is_product(m, self, o)
                },
                Err(e) => {
                    &&& self.columns != o.rows
                    &&& e == (MatrixError::DimensionMismatch {
                        left_rows: self.rows,
                        left_columns: self.columns,
                        right_rows: o.rows,
                        right_columns: o.columns,
                    })
                },
            },
    {
        if self.columns != o.rows {
            return Err(MatrixError::DimensionMismatch {
                left_rows: self.rows,
                left_columns: self.columns,
                right_rows: o.rows,
                right_columns: o.columns,
            });
        }
        let ghost bc = o.columns as int;
        let mut contents: Vec<T> = Vec::new();
        let mut r: usize = 0;
        while r < self.rows
            invariant
                r <= self.rows,
                self.wf(),
                o.wf(),
                self.columns == o.rows,
                bc == o.columns as int,
                contents@ == product_prefix(self, o, (r as int) * bc),
            decreases self.rows - r,
        {
            let mut c: usize = 0;
            while c < o.columns
                invariant
                    c <= o.columns,
                    r < self.rows,
                    self.wf(),
                    o.wf(),
                    self.columns == o.rows,
                    bc == o.columns as int,
                    contents@ == product_prefix(self, o, (r as int) * bc + (c as int)),
                decreases o.columns - c,
            {
                let mut acc: T = T::zero();
                let mut k: usize = 0;
                while k < self.columns
                    invariant
                        k <= self.columns,
                        r < self.rows,
                        c < o.columns,
                        self.wf(),
                        o.wf(),
                        self.columns == o.rows,
                        acc == dot_prefix(self, o, r as int, c as int, k as int),
                    decreases self.columns - k,
                {
                    acc = T::plus(acc, T::times(self.entry(r, k), o.entry(k, c)));
                    k += 1;
                }
                proof {
                    let i = (r as int) * bc + (c as int);
                    lemma_flat_index(r as int, c as int, self.rows as int, bc);
                    lemma_fundamental_div_mod_converse(i, bc, r as int, c as int);
                    assert(product_prefix(self, o, i + 1) =~= product_prefix(self, o, i).push(
                        dot(self, o, r as int, c as int),
                    ));
                }
                contents.push(acc);
                c += 1;
            }
            proof {
                assert((r as int) * bc + bc == ((r as int) + 1) * bc) by (nonlinear_arith);
            }
            r += 1;
        }
        let m = Matrix { rows: self.rows, columns: o.columns, contents };
        proof {
            lemma_product_prefix_full(m, self, o);
        }
        Ok(m)
    }

    /// The `n` by `n` identity matrix: ones on the diagonal, zeroes
    /// elsewhere.
    pub fn identity(n: usize) -> (m: Matrix<T>)
        requires
            (n as int) * (n as int) <= usize::MAX,
        ensures
            m.wf(),
            m.rows == n,
            m.columns == n,
            is_identity(m),
    {
        let mut contents: Vec<T> = Vec::new();
        let mut r: usize = 0;
        while r < n
            invariant
                r <= n,
                contents@ == identity_prefix::<T>(n as int, (r as int) * (n as int)),
            decreases n - r,
        {
            let mut c: usize = 0;
            while c < n
                invariant
                    c <= n,
                    r < n,
                    contents@ == identity_prefix::<T>(n as int, (r as int) * (n as int) + (
                    c as int)),
                decreases n - c,
            {
                let e = if r == c {
                    T::one()
                } else {
                    T::zero()
                };
                proof {
                    let i = (r as int) * (n as int) + (c as int);
                    lemma_flat_index(r as int, c as int, n as int, n as int);
                    lemma_fundamental_div_mod_converse(i, n as int, r as int, c as int);
                    assert(identity_prefix::<T>(n as int, i + 1) =~= identity_prefix::<T>(
                        n as int,
                        i,
                    ).push(if r == c {
                        T::one_spec()
                    } else {
                        T::zero_spec()
                    }));
                }
                contents.push(e);
                c += 1;
            }
            proof {
                assert((r as int) * (n as int) + (n as int) == ((r as int) + 1) * (n as int))
                    by (nonlinear_arith);
            }
            r += 1;
        }
        let m = Matrix { rows: n, columns: n, contents };
        proof {
            assert((n as int) * (n as int) >= 0) by (nonlinear_arith);
            assert forall|r: int, c: int|
                0 <= r < m.rows && 0 <= c < m.columns implies #[trigger] m.at(r, c) == (if r == c {
                T::one_spec()
            } else {
                T::zero_spec()
            }) by {
                let i = r * (n as int) + c;
                lemma_flat_index(r, c, n as int, n as int);
                lemma_fundamental_div_mod_converse(i, n as int, r, c);
            }
        }
        m
    }

    /// Element-wise (Hadamard) multiplication. The operands must share a
    /// shape; otherwise the call fails with `DimensionMismatch` carrying
    /// both shapes.
    pub fn hadamard(self, o: Matrix<T>) -> (result: Result<Matrix<T>, MatrixError>)
        requires
            self.wf(),
            o.wf(),
        ensures
            match result {
                Ok(m) => {
                    &&& self.same_shape(o)
                    &&& m.wf()
                    &&& is_hadamard(m, self, o)
                },
                Err(e) => {
                    &&& !self.same_shape(o)
                    &&& e == (MatrixError::DimensionMismatch {
                        left_rows: self.rows,
                        left_columns: self.columns,
                        right_rows: o.rows,
                        right_columns: o.columns,
                    })
                },
            },
    {
        if self.rows != o.rows || self.columns != o.columns {
            return Err(MatrixError::DimensionMismatch {
                left_rows: self.rows,
                left_columns: self.columns,
                right_rows: o.rows,
                right_columns: o.columns,
            });
        }
        let n = self.contents.len();
        let mut contents: Vec<T> = Vec::new();
        let mut i: usize = 0;
        while i < n
            invariant
                i <= n,
                n == self.contents@.len(),
                n == o.contents@.len(),
                contents@.len() == i,
                forall|j: int|
                    0 <= j < i ==> #[trigger] contents@[j] == T::times_spec(
                        self.contents@[j],
                        o.contents@[j],
                    ),
            decreases n - i,
        {
            contents.push(T::times(self.contents[i], o.contents[i]));
            i += 1;
        }
        Ok(Matrix { rows: self.rows, columns: self.columns, contents })
    }
}

} // verus!
