//! Laws of the integer matrix operations.
use vstd::prelude::*;

use crate::mat::{mat_mul, product_entry, sum_of, Mat};

verus! {

/// Sums of pointwise-equal terms are equal.
pub proof fn lemma_sum_ext(n: int, f: spec_fn(int) -> int, g: spec_fn(int) -> int)
    requires
        forall|t: int| 0 <= t < n ==> #[trigger] f(t) == g(t),
    ensures
        sum_of(n, f) == sum_of(n, g),
    decreases n,
{
    if n > 0 {
        lemma_sum_ext(n - 1, f, g);
    }
}

/// A sum of zero terms is zero.
pub proof fn lemma_sum_zero(n: int, f: spec_fn(int) -> int)
    requires
        forall|t: int| 0 <= t < n ==> #[trigger] f(t) == 0,
    ensures
        sum_of(n, f) == 0,
    decreases n,
{
    if n > 0 {
        lemma_sum_zero(n - 1, f);
    }
}

/// A sum of pointwise sums is the sum of the two sums.
pub proof fn lemma_sum_add(n: int, f: spec_fn(int) -> int, g: spec_fn(int) -> int)
    ensures
        sum_of(n, |t: int| f(t) + g(t)) == sum_of(n, f) + sum_of(n, g),
    decreases n,
{
    if n > 0 {
        lemma_sum_add(n - 1, f, g);
    }
}

/// A factor on the right distributes over a sum.
pub proof fn lemma_sum_times(n: int, f: spec_fn(int) -> int, c: int)
    ensures
        sum_of(n, f) * c == sum_of(n, |t: int| f(t) * c),
    decreases n,
{
    if n > 0 {
        lemma_sum_times(n - 1, f, c);
        assert(sum_of(n, f) * c == sum_of(n - 1, f) * c + f(n - 1) * c) by (nonlinear_arith)
            requires
                sum_of(n, f) == sum_of(n - 1, f) + f(n - 1),
        ;
    }
}

/// A factor on the left distributes over a sum.
pub proof fn lemma_times_sum(n: int, f: spec_fn(int) -> int, c: int)
    ensures
        c * sum_of(n, f) == sum_of(n, |t: int| c * f(t)),
    decreases n,
{
    if n > 0 {
        lemma_times_sum(n - 1, f, c);
        assert(c * sum_of(n, f) == c * sum_of(n - 1, f) + c * f(n - 1)) by (nonlinear_arith)
            requires
                sum_of(n, f) == sum_of(n - 1, f) + f(n - 1),
        ;
    }
}

/// The order of summation in a finite double sum does not matter.
pub proof fn lemma_sum_swap(n: int, m: int, g: spec_fn(int, int) -> int)
    requires
        0 <= m,
    ensures
        sum_of(n, |t: int| sum_of(m, |s: int| g(s, t))) == sum_of(m, |s: int| sum_of(n, |t: int| g(s, t))),
    decreases n,
{
    if n > 0 {
        let f = |t: int| sum_of(m, |s: int| g(s, t));
        let prev = |s: int| sum_of(n - 1, |t: int| g(s, t));
        let last = |s: int| g(s, n - 1);
        let whole = |s: int| sum_of(n, |t: int| g(s, t));
        lemma_sum_swap(n - 1, m, g);
        assert(sum_of(n - 1, f) == sum_of(m, prev));
        assert(sum_of(n, f) == sum_of(n - 1, f) + sum_of(m, last));
        lemma_sum_add(m, prev, last);
        let both = |s: int| prev(s) + last(s);
        assert forall|s: int| 0 <= s < m implies #[trigger] both(s) == whole(s) by {
            assert(sum_of(n, |t: int| g(s, t)) == sum_of(n - 1, |t: int| g(s, t)) + g(s, n - 1));
        }
        lemma_sum_ext(m, both, whole);
        lemma_sum_ext(m, both, |t: int| prev(t) + last(t));
        assert(sum_of(n, f) == sum_of(m, whole));
    } else {
        lemma_sum_zero(m, |s: int| sum_of(n, |t: int| g(s, t)));
    }
}

/// One entry of `(a × b) × c` equals the same entry of `a × (b × c)`.
proof fn lemma_product_entry_assoc(
    a: Seq<Seq<int>>,
    b: Seq<Seq<int>>,
    c: Seq<Seq<int>>,
    i: int,
    j: int,
    n: nat,
)
    requires
        0 <= i < a.len(),
        0 <= j < n,
    ensures
        product_entry(mat_mul(a, b, c.len()), c, i, j, c.len() as int) == product_entry(
            a,
            mat_mul(b, c, n),
            i,
            j,
            b.len() as int,
        ),
{
    let k = b.len() as int;
    let l = c.len() as int;
    let ab = mat_mul(a, b, c.len());
    let bc = mat_mul(b, c, n);
    let g = |s: int, t: int| a[i][s] * b[s][t] * c[t][j];
    assert forall|t: int| 0 <= t < l implies #[trigger] (ab[i][t] * c[t][j]) == sum_of(
        k,
        |s: int| g(s, t),
    ) by {
        lemma_sum_times(k, |s: int| a[i][s] * b[s][t], c[t][j]);
        lemma_sum_ext(
            k,
            |s: int| (|s: int| a[i][s] * b[s][t])(s) * c[t][j],
            |s: int| g(s, t),
        );
    }
    lemma_sum_ext(l, |t: int| ab[i][t] * c[t][j], |t: int| sum_of(k, |s: int| g(s, t)));
    lemma_sum_swap(l, k, g);
    assert forall|s: int| 0 <= s < k implies #[trigger] (a[i][s] * bc[s][j]) == sum_of(
        l,
        |t: int| g(s, t),
    ) by {
        lemma_times_sum(l, |t: int| b[s][t] * c[t][j], a[i][s]);
        assert forall|t: int| 0 <= t < l implies a[i][s] * (b[s][t] * c[t][j]) == #[trigger] g(s, t) by {
            assert(a[i][s] * (b[s][t] * c[t][j]) == a[i][s] * b[s][t] * c[t][j]) by (nonlinear_arith);
        }
        lemma_sum_ext(
            l,
            |t: int| a[i][s] * (|t: int| b[s][t] * c[t][j])(t),
            |t: int| g(s, t),
        );
    }
    lemma_sum_ext(k, |s: int| a[i][s] * bc[s][j], |s: int| sum_of(l, |t: int| g(s, t)));
}

/// Matrix multiplication is associative: `(a × b) × c == a × (b × c)`.
pub proof fn lemma_mul_associative<const M: usize, const K: usize, const L: usize, const N: usize>(
    a: Mat<i64, M, K>,
    b: Mat<i64, K, L>,
    c: Mat<i64, L, N>,
)
    ensures
        mat_mul(mat_mul(a@, b@, L as nat), c@, N as nat) == mat_mul(a@, mat_mul(b@, c@, N as nat), N as nat),
{
    let lhs = mat_mul(mat_mul(a@, b@, L as nat), c@, N as nat);
    let rhs = mat_mul(a@, mat_mul(b@, c@, N as nat), N as nat);
    assert forall|i: int, j: int| 0 <= i < M && 0 <= j < N implies #[trigger] lhs[i][j] == rhs[i][j] by {
        lemma_product_entry_assoc(a@, b@, c@, i, j, N as nat);
    }
    assert(lhs =~~= rhs);
}

} // verus!
