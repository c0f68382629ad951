//! Mathematical model of the algebra: every executable operation is specified
//! against these functions over `Seq<int>`, where arithmetic is exact.

use vstd::prelude::*;

verus! {

/// Magnitude limit on the entries fed to a matrix product. Within it, every
/// product of two entries is at most 2^60 in magnitude, so a sum of up to
/// four of them stays well inside the 64-bit range.
pub const ENTRY_LIMIT: i64 = 0x4000_0000;

/// The sequence of machine integers, read as mathematical integers.
pub open spec fn ints(s: Seq<i64>) -> Seq<int> {
    s.map_values(|v: i64| v as int)
}

/// Component-wise sum of two equally long sequences.
pub open spec fn add_seq(a: Seq<int>, b: Seq<int>) -> Seq<int> {
    Seq::new(a.len(), |i: int| a[i] + b[i])
}

/// Component-wise difference of two equally long sequences.
pub open spec fn sub_seq(a: Seq<int>, b: Seq<int>) -> Seq<int> {
    Seq::new(a.len(), |i: int| a[i] - b[i])
}

/// The scalar `c` added to every component (broadcast).
pub open spec fn add_const_seq(a: Seq<int>, c: int) -> Seq<int> {
    Seq::new(a.len(), |i: int| a[i] + c)
}

/// The scalar `c` subtracted from every component (broadcast).
pub open spec fn sub_const_seq(a: Seq<int>, c: int) -> Seq<int> {
    Seq::new(a.len(), |i: int| a[i] - c)
}

/// Every component multiplied by the scalar `c`.
pub open spec fn scale_seq(a: Seq<int>, c: int) -> Seq<int> {
    Seq::new(a.len(), |i: int| a[i] * c)
}

/// Division of `a` by `d` that truncates toward zero, as machine division does.
pub open spec fn div_trunc(a: int, d: int) -> int {
    if (a >= 0) == (d >= 0) {
        abs_int(a) / abs_int(d)
    } else {
        -(abs_int(a) / abs_int(d))
    }
}

/// The absolute value.
pub open spec fn abs_int(a: int) -> int {
    if a >= 0 { a } else { -a }
}

/// Every component divided by the scalar `d`, truncating toward zero.
pub open spec fn div_seq(a: Seq<int>, d: int) -> Seq<int> {
    Seq::new(a.len(), |i: int| div_trunc(a[i], d))
}

/// Inner product: the sum of the component-wise products.
pub open spec fn dot(a: Seq<int>, b: Seq<int>) -> int
    decreases a.len(),
{
    if a.len() == 0 || b.len() == 0 {
        0
    } else {
        a[0] * b[0] + dot(a.drop_first(), b.drop_first())
    }
}

/// The sum of the squares of the components.
pub open spec fn sum_of_squares(a: Seq<int>) -> int
    decreases a.len(),
{
    if a.len() == 0 {
        0
    } else {
        a[0] * a[0] + sum_of_squares(a.drop_first())
    }
}

/// Row `r` of a flat row-major `n` by `n` matrix.
pub open spec fn row(m: Seq<int>, n: nat, r: int) -> Seq<int> {
    Seq::new(n, |k: int| m[r * n + k])
}

/// Column `c` of a flat row-major `n` by `n` matrix.
pub open spec fn col(m: Seq<int>, n: nat, c: int) -> Seq<int> {
    Seq::new(n, |k: int| m[k * n + c])
}

/// The matrix product: entry (r, c) is the inner product of row r of `a`
/// with column c of `b`, laid out row-major.
pub open spec fn mat_mul(a: Seq<int>, b: Seq<int>, n: nat) -> Seq<int> {
    Seq::new(n * n, |i: int| dot(row(a, n, i / n as int), col(b, n, i % n as int)))
}

/// The matrix applied to a vector: component r is the inner product of
/// row r of `m` with `v`.
pub open spec fn mat_vec(m: Seq<int>, v: Seq<int>, n: nat) -> Seq<int> {
    Seq::new(n, |r: int| dot(row(m, n, r), v))
}

/// The identity matrix: 1 on the diagonal, 0 elsewhere, row-major.
pub open spec fn identity_seq(n: nat) -> Seq<int> {
    Seq::new(n * n, |i: int| if i / (n as int) == i % (n as int) { 1int } else { 0int })
}

/// A sequence of `n` copies of the constant `c`.
pub open spec fn const_seq(n: nat, c: int) -> Seq<int> {
    Seq::new(n, |i: int| c)
}

/// Every component lies within `[-bound, bound]`.
pub open spec fn bounded(s: Seq<int>, bound: int) -> bool {
    forall|i: int| 0 <= i < s.len() ==> -bound <= #[trigger] s[i] <= bound
}

/// Row-major indexing: position (r, c) of an n-by-n grid lives at flat index
/// r * n + c, and that index decomposes back into r and c.
pub proof fn lemma_flat_index(r: int, c: int, n: int)
    requires
        0 <= r < n,
        0 <= c < n,
    ensures
        0 <= r * n + c < n * n,
        (r * n + c) / n == r,
        (r * n + c) % n == c,
{
    assert(0 <= r * n + c < n * n) by (nonlinear_arith)
        requires
            0 <= r < n,
            0 <= c < n,
    ;
    vstd::arithmetic::div_mod::lemma_fundamental_div_mod_converse(r * n + c, n, r, c);
}

/// Extending the prefixes under an inner product by one position adds that
/// position's product to the sum.
pub proof fn lemma_dot_prefix(a: Seq<int>, b: Seq<int>, k: int)
    requires
        0 <= k,
        k < a.len(),
        k < b.len(),
    ensures
        dot(a.take(k + 1), b.take(k + 1)) == dot(a.take(k), b.take(k)) + a[k] * b[k],
    decreases k,
{
    if k == 0 {
        assert(a.take(0) =~= Seq::<int>::empty());
        assert(b.take(0) =~= Seq::<int>::empty());
        assert(a.take(1).drop_first() =~= Seq::<int>::empty());
        assert(b.take(1).drop_first() =~= Seq::<int>::empty());
    } else {
        let a1 = a.drop_first();
        let b1 = b.drop_first();
        lemma_dot_prefix(a1, b1, k - 1);
        assert(a.take(k + 1).drop_first() =~= a1.take(k));
        assert(b.take(k + 1).drop_first() =~= b1.take(k));
        assert(a.take(k).drop_first() =~= a1.take(k - 1));
        assert(b.take(k).drop_first() =~= b1.take(k - 1));
        assert(dot(a.take(k + 1), b.take(k + 1)) == a[0] * b[0] + dot(a1.take(k), b1.take(k)));
        assert(dot(a.take(k), b.take(k)) == a[0] * b[0] + dot(a1.take(k - 1), b1.take(k - 1)));
        assert(a1[k - 1] == a[k]);
    }
}

} // verus!
