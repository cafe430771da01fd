//! Row-major matrices whose shape is part of their type.
use vstd::prelude::*;

verus! {

broadcast use vstd::array::group_array_axioms;

/// An `M`-row, `N`-column matrix stored row by row.
#[derive(Clone, Copy, PartialEq, Debug)]
pub struct Mat<T, const M: usize, const N: usize> {
    pub data: [[T; N]; M],
}

pub type Mat2<T> = Mat<T, 2, 2>;
pub type Mat3<T> = Mat<T, 3, 3>;
pub type Mat4<T> = Mat<T, 4, 4>;
pub type Mat2x3<T> = Mat<T, 2, 3>;
pub type Mat2x4<T> = Mat<T, 2, 4>;
pub type Mat3x2<T> = Mat<T, 3, 2>;
pub type Mat3x4<T> = Mat<T, 3, 4>;
pub type Mat4x2<T> = Mat<T, 4, 2>;
pub type Mat4x3<T> = Mat<T, 4, 3>;

/// Whether an integer is representable as an `i64`.
pub open spec fn fits(x: int) -> bool {
    i64::MIN <= x <= i64::MAX
}

/// `f(0) + f(1) + ... + f(n - 1)`.
pub open spec fn sum_of(n: int, f: spec_fn(int) -> int) -> int
    decreases n,
{
    if n <= 0 {
        0
    } else {
        sum_of(n - 1, f) + f(n - 1)
    }
}

/// Entry `(i, j)` of the product of `a` and `b`, summing over the first `k` terms.
pub open spec fn product_entry(a: Seq<Seq<int>>, b: Seq<Seq<int>>, i: int, j: int, k: int) -> int {
    sum_of(k, |t: int| a[i][t] * b[t][j])
}

/// The product of an `a.len()` × `b.len()` matrix and a `b.len()` × `n` matrix.
pub open spec fn mat_mul(a: Seq<Seq<int>>, b: Seq<Seq<int>>, n: nat) -> Seq<Seq<int>> {
    Seq::new(a.len(), |i: int| Seq::new(n, |j: int| product_entry(a, b, i, j, b.len() as int)))
}

impl<T, const M: usize, const N: usize> Mat<T, M, N> {
    /// Entry `(i, j)`.
    pub open spec fn at(&self, i: int, j: int) -> T {
        self.data[i][j]
    }

    /// The number of rows.
    pub fn rows(&self) -> (r: usize)
        ensures
            r == M,
    {
        M
    }

    /// The number of columns.
    pub fn cols(&self) -> (r: usize)
        ensures
            r == N,
    {
        N
    }

    /// The number of entries.
    pub fn count(&self) -> (r: usize)
        requires
            M * N <= usize::MAX,
        ensures
            r == M * N,
    {
        M * N
    }
}

impl<T: Copy, const M: usize, const N: usize> Mat<T, M, N> {
    /// Entry `(i, j)`.
    pub fn get(&self, i: usize, j: usize) -> (r: T)
        requires
            i < M,
            j < N,
        ensures
            r == self.at(i as int, j as int),
    {
        self.data[i][j]
    }

    /// Replaces entry `(i, j)` with `value`.
    pub fn set(&mut self, i: usize, j: usize, value: T)
        requires
            i < M,
            j < N,
        ensures
            forall|a: int, b: int|
                0 <= a < M && 0 <= b < N ==> #[trigger] final(self).at(a, b) == if a == i && b
                    == j {
                    value
                } else {
                    old(self).at(a, b)
                },
    {
        let mut row = self.data[i];
        row[j] = value;
        self.data[i] = row;
    }
}

impl<T: Copy + Default, const M: usize, const N: usize> Mat<T, M, N> {
    /// The transpose, an `N` × `M` matrix.
    #[allow(non_snake_case)]
    pub fn T(&self) -> (r: Mat<T, N, M>)
        ensures
            forall|i: int, j: int| 0 <= i < N && 0 <= j < M ==> #[trigger] r.at(i, j) == self.at(j, i),
    {
        let mut result = Mat::<T, N, M> { data: [[T::default(); M]; N] };
        let mut i: usize = 0;
        while i < N
            invariant
                i <= N,
                forall|a: int, b: int| 0 <= a < i && 0 <= b < M ==> #[trigger] result.at(a, b) == self.at(b, a),
            decreases N - i,
        {
            let mut row = result.data[i];
            let mut j: usize = 0;
            while j < M
                invariant
                    i < N,
                    j <= M,
                    forall|b: int| 0 <= b < j ==> #[trigger] row[b] == self.at(b, i as int),
                decreases M - j,
            {
                row[j] = self.data[j][i];
                j += 1;
            }
            let ghost prev = result;
            result.data[i] = row;
            assert forall|a: int, b: int| 0 <= a <= i && 0 <= b < M implies #[trigger] result.at(a, b)
                == self.at(b, a) by {
                assert(result.data@ == prev.data@.update(i as int, row));
                if a < i {
                    assert(result.data[a] == prev.data[a]);
                    assert(prev.at(a, b) == self.at(b, a));
                } else {
                    assert(result.data[a] == row);
                    assert(row[b] == self.at(b, a));
                }
            }
            i += 1;
        }
        result
    }

    /// The transpose, an `N` × `M` matrix.
    pub fn transpose(&self) -> (r: Mat<T, N, M>)
        ensures
            forall|i: int, j: int| 0 <= i < N && 0 <= j < M ==> #[trigger] r.at(i, j) == self.at(j, i),
    {
        self.T()
    }
}

impl<T: Copy, const M: usize, const N: usize> From<[[T; N]; M]> for Mat<T, M, N> {
    fn from(value: [[T; N]; M]) -> Self {
        Mat { data: value }
    }
}

impl<T: Copy, const M: usize, const N: usize> vstd::std_specs::convert::FromSpecImpl<[[T; N]; M]> for Mat<T, M, N> {
    open spec fn obeys_from_spec() -> bool {
        true
    }

    open spec fn from_spec(v: [[T; N]; M]) -> Self {
        Mat { data: v }
    }
}


impl<const M: usize, const N: usize> View for Mat<i64, M, N> {
    type V = Seq<Seq<int>>;

    open spec fn view(&self) -> Seq<Seq<int>> {
        Seq::new(M as nat, |i: int| Seq::new(N as nat, |j: int| self.data[i][j] as int))
    }
}

impl<const M: usize, const N: usize> Mat<i64, M, N> {
    /// The zero matrix.
    pub fn zero() -> (r: Self)
        ensures
            forall|i: int, j: int| 0 <= i < M && 0 <= j < N ==> #[trigger] r.at(i, j) == 0,
    {
        Mat { data: [[0i64; N]; M] }
    }

    /// Ones on the diagonal and zeros elsewhere; for a square shape, the identity.
    pub fn new() -> (r: Self)
        ensures
            forall|i: int, j: int| 0 <= i < M && 0 <= j < N ==> #[trigger] r.at(i, j) == identity_entry(i, j),
    {
        let mut result = Self::zero();
        let mut i: usize = 0;
        while i < M && i < N
            invariant
                i <= M,
                forall|a: int, b: int|
                    0 <= a < M && 0 <= b < N ==> #[trigger] result.at(a, b) == if a == b && a < i {
                        1int
                    } else {
                        0
                    },
            decreases M - i,
        {
            result.set(i, i, 1);
            i += 1;
        }
        assert forall|a: int, b: int| 0 <= a < M && 0 <= b < N implies #[trigger] result.at(a, b)
            == identity_entry(a, b) by {
            if a == b {
                assert(a < i);
            }
        }
        result
    }

    /// The entrywise sum `self + rhs`.
    pub fn add(&self, rhs: &Self) -> (r: Self)
        requires
            forall|i: int, j: int|
                0 <= i < M && 0 <= j < N ==> fits(#[trigger] self.at(i, j) + rhs.at(i, j)),
        ensures
            forall|i: int, j: int|
                0 <= i < M && 0 <= j < N ==> #[trigger] r.at(i, j) == self.at(i, j) + rhs.at(i, j),
    {
        let mut result = Self::zero();
        let mut i: usize = 0;
        while i < M
            invariant
                i <= M,
                forall|a: int, b: int|
                    0 <= a < M && 0 <= b < N ==> fits(#[trigger] self.at(a, b) + rhs.at(a, b)),
                forall|a: int, b: int|
                    0 <= a < i && 0 <= b < N ==> #[trigger] result.at(a, b) == self.at(a, b)
                        + rhs.at(a, b),
            decreases M - i,
        {
            let mut row = [0i64; N];
            let mut j: usize = 0;
            while j < N
                invariant
                    i < M,
                    j <= N,
                    forall|a: int, b: int|
                        0 <= a < M && 0 <= b < N ==> fits(#[trigger] self.at(a, b) + rhs.at(a, b)),
                    forall|b: int| 0 <= b < j ==> #[trigger] row[b] == self.at(i as int, b) + rhs.at(i as int, b),
                decreases N - j,
            {
                assert(fits(self.at(i as int, j as int) + rhs.at(i as int, j as int)));
                row[j] = self.data[i][j] + rhs.data[i][j];
                j += 1;
            }
            let ghost prev = result;
            result.data[i] = row;
            assert forall|a: int, b: int| 0 <= a <= i && 0 <= b < N implies #[trigger] result.at(a, b)
                == self.at(a, b) + rhs.at(a, b) by {
                assert(result.data@ == prev.data@.update(i as int, row));
                if a < i {
                    assert(result.data[a] == prev.data[a]);
                    assert(prev.at(a, b) == self.at(a, b) + rhs.at(a, b));
                } else {
                    assert(result.data[a] == row);
                    assert(row[b] == self.at(a, b) + rhs.at(a, b));
                }
            }
            i += 1;
        }
        result
    }

    /// The entrywise difference `self - rhs`.
    pub fn sub(&self, rhs: &Self) -> (r: Self)
        requires
            forall|i: int, j: int|
                0 <= i < M && 0 <= j < N ==> fits(#[trigger] self.at(i, j) - rhs.at(i, j)),
        ensures
            forall|i: int, j: int|
                0 <= i < M && 0 <= j < N ==> #[trigger] r.at(i, j) == self.at(i, j) - rhs.at(i, j),
    {
        let mut result = Self::zero();
        let mut i: usize = 0;
        while i < M
            invariant
                i <= M,
                forall|a: int, b: int|
                    0 <= a < M && 0 <= b < N ==> fits(#[trigger] self.at(a, b) - rhs.at(a, b)),
                forall|a: int, b: int|
                    0 <= a < i && 0 <= b < N ==> #[trigger] result.at(a, b) == self.at(a, b) - rhs.at(a, b),
            decreases M - i,
        {
            let mut row = [0i64; N];
            let mut j: usize = 0;
            while j < N
                invariant
                    i < M,
                    j <= N,
                    forall|a: int, b: int|
                        0 <= a < M && 0 <= b < N ==> fits(#[trigger] self.at(a, b) - rhs.at(a, b)),
                    forall|b: int| 0 <= b < j ==> #[trigger] row[b] == self.at(i as int, b) - rhs.at(i as int, b),
                decreases N - j,
            {
                assert(fits(self.at(i as int, j as int) - rhs.at(i as int, j as int)));
                row[j] = self.data[i][j] - rhs.data[i][j];
                j += 1;
            }
            let ghost prev = result;
            result.data[i] = row;
            assert forall|a: int, b: int| 0 <= a <= i && 0 <= b < N implies #[trigger] result.at(a, b)
                == self.at(a, b) - rhs.at(a, b) by {
                assert(result.data@ == prev.data@.update(i as int, row));
                if a < i {
                    assert(result.data[a] == prev.data[a]);
                    assert(prev.at(a, b) == self.at(a, b) - rhs.at(a, b));
                } else {
                    assert(result.data[a] == row);
                    assert(row[b] == self.at(a, b) - rhs.at(a, b));
                }
            }
            i += 1;
        }
        result
    }

    /// The entrywise negation `-self`.
    pub fn neg(&self) -> (r: Self)
        requires
            forall|i: int, j: int|
                0 <= i < M && 0 <= j < N ==> fits(#[trigger] -self.at(i, j)),
        ensures
            forall|i: int, j: int|
                0 <= i < M && 0 <= j < N ==> #[trigger] r.at(i, j) == -self.at(i, j),
    {
        let mut result = Self::zero();
        let mut i: usize = 0;
        while i < M
            invariant
                i <= M,
                forall|a: int, b: int|
                    0 <= a < M && 0 <= b < N ==> fits(#[trigger] -self.at(a, b)),
                forall|a: int, b: int|
                    0 <= a < i && 0 <= b < N ==> #[trigger] result.at(a, b) == -self.at(a, b),
            decreases M - i,
        {
            let mut row = [0i64; N];
            let mut j: usize = 0;
            while j < N
                invariant
                    i < M,
                    j <= N,
                    forall|a: int, b: int|
                        0 <= a < M && 0 <= b < N ==> fits(#[trigger] -self.at(a, b)),
                    forall|b: int| 0 <= b < j ==> #[trigger] row[b] == -self.at(i as int, b),
                decreases N - j,
            {
                assert(fits(-self.at(i as int, j as int)));
                row[j] = -self.data[i][j];
                j += 1;
            }
            let ghost prev = result;
            result.data[i] = row;
            assert forall|a: int, b: int| 0 <= a <= i && 0 <= b < N implies #[trigger] result.at(a, b)
                == -self.at(a, b) by {
                assert(result.data@ == prev.data@.update(i as int, row));
                if a < i {
                    assert(result.data[a] == prev.data[a]);
                    assert(prev.at(a, b) == -self.at(a, b));
                } else {
                    assert(result.data[a] == row);
                    assert(row[b] == -self.at(a, b));
                }
            }
            i += 1;
        }
        result
    }

    /// Every entry multiplied by `k`.
    pub fn mul_scalar(&self, k: i64) -> (r: Self)
        requires
            forall|i: int, j: int|
                0 <= i < M && 0 <= j < N ==> fits(#[trigger] self.at(i, j) * k),
        ensures
            forall|i: int, j: int|
                0 <= i < M && 0 <= j < N ==> #[trigger] r.at(i, j) == self.at(i, j) * k,
    {
        let mut result = Self::zero();
        let mut i: usize = 0;
        while i < M
            invariant
                i <= M,
                forall|a: int, b: int|
                    0 <= a < M && 0 <= b < N ==> fits(#[trigger] self.at(a, b) * k),
                forall|a: int, b: int|
                    0 <= a < i && 0 <= b < N ==> #[trigger] result.at(a, b) == self.at(a, b) * k,
            decreases M - i,
        {
            let mut row = [0i64; N];
            let mut j: usize = 0;
            while j < N
                invariant
                    i < M,
                    j <= N,
                    forall|a: int, b: int|
                        0 <= a < M && 0 <= b < N ==> fits(#[trigger] self.at(a, b) * k),
                    forall|b: int| 0 <= b < j ==> #[trigger] row[b] == self.at(i as int, b) * k,
                decreases N - j,
            {
                assert(fits(self.at(i as int, j as int) * k));
                row[j] = self.data[i][j] * k;
                j += 1;
            }
            let ghost prev = result;
            result.data[i] = row;
            assert forall|a: int, b: int| 0 <= a <= i && 0 <= b < N implies #[trigger] result.at(a, b)
                == self.at(a, b) * k by {
                assert(result.data@ == prev.data@.update(i as int, row));
                if a < i {
                    assert(result.data[a] == prev.data[a]);
                    assert(prev.at(a, b) == self.at(a, b) * k);
                } else {
                    assert(result.data[a] == row);
                    assert(row[b] == self.at(a, b) * k);
                }
            }
            i += 1;
        }
        result
    }
}


/// The entries of the `n` × `n` identity matrix.
pub open spec fn identity_entry(i: int, j: int) -> int {
    if i == j {
        1
    } else {
        0
    }
}

impl<const M: usize> Mat<i64, M, M> {
    /// The identity matrix.
    #[allow(non_snake_case)]
    pub fn I() -> (r: Self)
        ensures
            forall|i: int, j: int| 0 <= i < M && 0 <= j < M ==> #[trigger] r.at(i, j) == identity_entry(i, j),
    {
        Self::new()
    }

    /// The identity matrix.
    pub fn identity() -> (r: Self)
        ensures
            forall|i: int, j: int| 0 <= i < M && 0 <= j < M ==> #[trigger] r.at(i, j) == identity_entry(i, j),
    {
        Self::I()
    }
}

/// Whether every partial sum of every entry of `a × b` fits in an `i64`.
pub open spec fn mul_fits<const M: usize, const K: usize, const N: usize>(
    a: Mat<i64, M, K>,
    b: Mat<i64, K, N>,
) -> bool {
    forall|i: int, j: int, p: int|
        0 <= i < M && 0 <= j < N && 0 <= p <= K ==> fits(#[trigger] product_entry(a@, b@, i, j, p))
}

impl<const M: usize, const K: usize> Mat<i64, M, K> {
    /// The matrix product `self × rhs`.
    pub fn mul<const N: usize>(&self, rhs: &Mat<i64, K, N>) -> (r: Mat<i64, M, N>)
        requires
            mul_fits(*self, *rhs),
        ensures
            r@ == mat_mul(self@, rhs@, N as nat),
    {
        let mut result = Mat::<i64, M, N>::zero();
        let mut i: usize = 0;
        while i < M
            invariant
                i <= M,
                mul_fits(*self, *rhs),
                forall|a: int, b: int|
                    0 <= a < i && 0 <= b < N ==> #[trigger] result.at(a, b) == product_entry(
                        self@,
                        rhs@,
                        a,
                        b,
                        K as int,
                    ),
            decreases M - i,
        {
            let mut row = [0i64; N];
            let mut j: usize = 0;
            while j < N
                invariant
                    i < M,
                    j <= N,
                    mul_fits(*self, *rhs),
                    forall|b: int|
                        0 <= b < j ==> #[trigger] row[b] == product_entry(self@, rhs@, i as int, b, K as int),
                decreases N - j,
            {
                let mut acc: i64 = 0;
                let mut t: usize = 0;
                while t < K
                    invariant
                        i < M,
                        j < N,
                        t <= K,
                        mul_fits(*self, *rhs),
                        acc == product_entry(self@, rhs@, i as int, j as int, t as int),
                    decreases K - t,
                {
                    let x = self.data[i][t] as i128;
                    let y = rhs.data[t][j] as i128;
                    proof {
                        lemma_i64_product_bound(x, y);
                        assert(fits(product_entry(self@, rhs@, i as int, j as int, t + 1)));
                        assert(self@[i as int][t as int] == x);
                        assert(rhs@[t as int][j as int] == y);
                    }
                    let next = acc as i128 + x * y;
                    acc = next as i64;
                    t += 1;
                }
                row[j] = acc;
                j += 1;
            }
            let ghost prev = result;
            result.data[i] = row;
            assert forall|a: int, b: int| 0 <= a <= i && 0 <= b < N implies #[trigger] result.at(a, b)
                == product_entry(self@, rhs@, a, b, K as int) by {
                assert(result.data@ == prev.data@.update(i as int, row));
                if a < i {
                    assert(result.data[a] == prev.data[a]);
                    assert(prev.at(a, b) == product_entry(self@, rhs@, a, b, K as int));
                } else {
                    assert(result.data[a] == row);
                    assert(row[b] == product_entry(self@, rhs@, a, b, K as int));
                }
            }
            i += 1;
        }
        assert(result@ =~~= mat_mul(self@, rhs@, N as nat)) by {
            assert forall|a: int, b: int| 0 <= a < M && 0 <= b < N implies result@[a][b] == mat_mul(
                self@,
                rhs@,
                N as nat,
            )[a][b] by {
                assert(result.at(a, b) == product_entry(self@, rhs@, a, b, K as int));
            }
        }
        result
    }
}

/// Two `i64` values multiply without overflow in `i128`.
pub(crate) proof fn lemma_i64_product_bound(a: i128, b: i128)
    requires
        i64::MIN <= a <= i64::MAX,
        i64::MIN <= b <= i64::MAX,
    ensures
        -0x4000_0000_0000_0000_0000_0000_0000_0000 <= a * b <= 0x4000_0000_0000_0000_0000_0000_0000_0000,
{
    assert(-0x4000_0000_0000_0000_0000_0000_0000_0000 <= a * b <= 0x4000_0000_0000_0000_0000_0000_0000_0000)
        by (nonlinear_arith)
        requires
            -0x8000_0000_0000_0000 <= a <= 0x7fff_ffff_ffff_ffff,
            -0x8000_0000_0000_0000 <= b <= 0x7fff_ffff_ffff_ffff,
    ;
}

} // verus!
