//! The general algebraic laws of the library, proved over the model in
//! `crate::model`. Every executable operation's contract is stated over that
//! model, so each law carries over to the corresponding operations on every
//! vector and matrix size.

use vstd::prelude::*;

use crate::model::{
    add_seq, col, const_seq, dot, identity_seq, lemma_flat_index, mat_mul, mat_vec, row, scale_seq,
    sum_of_squares,
};

verus! {

/// Addition is commutative: component-wise sums do not depend on the operand
/// order. This covers both vector and matrix addition, whose contracts are
/// both stated with `add_seq`.
pub proof fn lemma_add_comm(a: Seq<int>, b: Seq<int>)
    requires
        a.len() == b.len(),
    ensures
        add_seq(a, b) == add_seq(b, a),
{
    assert(add_seq(a, b) =~= add_seq(b, a));
}

/// Scaling distributes over addition: (a + b) scaled by s equals a scaled by
/// s plus b scaled by s, component by component.
pub proof fn lemma_scale_distributes_over_add(a: Seq<int>, b: Seq<int>, s: int)
    requires
        a.len() == b.len(),
    ensures
        scale_seq(add_seq(a, b), s) == add_seq(scale_seq(a, s), scale_seq(b, s)),
{
    assert forall|i: int| 0 <= i < a.len() implies scale_seq(add_seq(a, b), s)[i] == add_seq(
        scale_seq(a, s),
        scale_seq(b, s),
    )[i] by {
        assert((a[i] + b[i]) * s == a[i] * s + b[i] * s) by (nonlinear_arith);
    }
    assert(scale_seq(add_seq(a, b), s) =~= add_seq(scale_seq(a, s), scale_seq(b, s)));
}

/// The inner product of a vector with itself is the sum of its squared
/// components, and therefore never negative.
pub proof fn lemma_dot_self_nonneg(v: Seq<int>)
    ensures
        dot(v, v) == sum_of_squares(v),
        dot(v, v) >= 0,
    decreases v.len(),
{
    if v.len() > 0 {
        lemma_dot_self_nonneg(v.drop_first());
        assert(v[0] * v[0] >= 0) by (nonlinear_arith);
    }
}

/// The inner product with an all-zero vector is zero.
proof fn lemma_dot_zero_left(n: nat, v: Seq<int>)
    requires
        v.len() == n,
    ensures
        dot(const_seq(n, 0), v) == 0,
    decreases n,
{
    if n > 0 {
        assert(const_seq(n, 0).drop_first() =~= const_seq((n - 1) as nat, 0));
        lemma_dot_zero_left((n - 1) as nat, v.drop_first());
        assert(const_seq(n, 0)[0] == 0);
        assert(dot(const_seq(n, 0), v) == const_seq(n, 0)[0] * v[0] + dot(
            const_seq(n, 0).drop_first(),
            v.drop_first(),
        ));
    } else {
        assert(dot(const_seq(n, 0), v) == 0);
    }
}

/// The vector with 1 at position r and 0 elsewhere.
spec fn unit_seq(n: nat, r: int) -> Seq<int> {
    Seq::new(n, |k: int| if k == r { 1int } else { 0int })
}

/// The inner product with a unit vector picks out one component.
proof fn lemma_dot_unit(n: nat, r: int, v: Seq<int>)
    requires
        v.len() == n,
        0 <= r < n,
    ensures
        dot(unit_seq(n, r), v) == v[r],
    decreases n,
{
    let u = unit_seq(n, r);
    let u1 = u.drop_first();
    let v1 = v.drop_first();
    assert(dot(u, v) == u[0] * v[0] + dot(u1, v1));
    if r == 0 {
        assert(u1 =~= const_seq((n - 1) as nat, 0));
        lemma_dot_zero_left((n - 1) as nat, v1);
        assert(u[0] == 1);
    } else {
        assert(u1 =~= unit_seq((n - 1) as nat, r - 1));
        lemma_dot_unit((n - 1) as nat, r - 1, v1);
        assert(u[0] == 0);
        assert(v1[r - 1] == v[r]);
    }
}

/// Splitting both operands of an inner product into component-wise sums
/// splits the inner product.
proof fn lemma_dot_add_left(x: Seq<int>, y: Seq<int>, w: Seq<int>)
    requires
        x.len() == y.len(),
        y.len() == w.len(),
    ensures
        dot(add_seq(x, y), w) == dot(x, w) + dot(y, w),
    decreases x.len(),
{
    if x.len() > 0 {
        assert(add_seq(x, y).drop_first() =~= add_seq(x.drop_first(), y.drop_first()));
        lemma_dot_add_left(x.drop_first(), y.drop_first(), w.drop_first());
        assert(add_seq(x, y)[0] == x[0] + y[0]);
        assert(dot(add_seq(x, y), w) == add_seq(x, y)[0] * w[0] + dot(
            add_seq(x, y).drop_first(),
            w.drop_first(),
        ));
        assert((x[0] + y[0]) * w[0] == x[0] * w[0] + y[0] * w[0]) by (nonlinear_arith);
    } else {
        assert(add_seq(x, y).len() == 0);
    }
}

/// A scalar factor on one operand of an inner product scales the whole sum.
proof fn lemma_dot_scale_left(x: Seq<int>, s: int, w: Seq<int>)
    requires
        x.len() == w.len(),
    ensures
        dot(scale_seq(x, s), w) == s * dot(x, w),
    decreases x.len(),
{
    if x.len() > 0 {
        assert(scale_seq(x, s).drop_first() =~= scale_seq(x.drop_first(), s));
        lemma_dot_scale_left(x.drop_first(), s, w.drop_first());
        assert(dot(scale_seq(x, s), w) == scale_seq(x, s)[0] * w[0] + dot(
            scale_seq(x, s).drop_first(),
            w.drop_first(),
        ));
        assert((x[0] * s) * w[0] + s * dot(x.drop_first(), w.drop_first()) == s * (x[0] * w[0]
            + dot(x.drop_first(), w.drop_first()))) by (nonlinear_arith);
    } else {
        assert(scale_seq(x, s).len() == 0);
    }
}

/// Column `k` of a matrix held as a sequence of rows.
spec fn col_of(rows: Seq<Seq<int>>, k: int) -> Seq<int> {
    Seq::new(rows.len(), |j: int| rows[j][k])
}

/// Interchange of a double summation: summing inner products of `u` with the
/// columns of a grid, weighted by `w`, equals summing inner products of the
/// grid's rows with `w`, weighted by `u`.
proof fn lemma_dot_interchange(u: Seq<int>, rows: Seq<Seq<int>>, w: Seq<int>, p: nat)
    requires
        u.len() == rows.len(),
        forall|j: int| 0 <= j < rows.len() ==> (#[trigger] rows[j]).len() == p,
        w.len() == p,
    ensures
        dot(Seq::new(p, |k: int| dot(u, col_of(rows, k))), w) == dot(
            u,
            Seq::new(rows.len(), |j: int| dot(rows[j], w)),
        ),
    decreases u.len(),
{
    let lhs_arg = Seq::new(p, |k: int| dot(u, col_of(rows, k)));
    let rhs_arg = Seq::new(rows.len(), |j: int| dot(rows[j], w));
    if u.len() == 0 {
        assert forall|k: int| 0 <= k < p implies lhs_arg[k] == 0 by {
            assert(col_of(rows, k).len() == 0);
        }
        assert(lhs_arg =~= const_seq(p, 0));
        lemma_dot_zero_left(p, w);
        assert(dot(u, rhs_arg) == 0);
    } else {
        let u0 = u[0];
        let row0 = rows[0];
        let u1 = u.drop_first();
        let rows1 = rows.drop_first();
        let lhs_arg1 = Seq::new(p, |k: int| dot(u1, col_of(rows1, k)));
        let rhs_arg1 = Seq::new(rows1.len(), |j: int| dot(rows1[j], w));
        lemma_dot_interchange(u1, rows1, w, p);
        assert forall|k: int| 0 <= k < p implies lhs_arg[k] == scale_seq(row0, u0)[k]
            + lhs_arg1[k] by {
            let ck = col_of(rows, k);
            assert(ck.drop_first() =~= col_of(rows1, k));
            assert(dot(u, ck) == u0 * ck[0] + dot(u1, ck.drop_first()));
            assert(ck[0] == row0[k]);
            assert(u0 * row0[k] == row0[k] * u0) by (nonlinear_arith);
        }
        assert(lhs_arg =~= add_seq(scale_seq(row0, u0), lhs_arg1));
        lemma_dot_add_left(scale_seq(row0, u0), lhs_arg1, w);
        lemma_dot_scale_left(row0, u0, w);
        assert(dot(lhs_arg, w) == u0 * dot(row0, w) + dot(lhs_arg1, w));
        assert(rhs_arg.drop_first() =~= rhs_arg1);
        assert(dot(u, rhs_arg) == u0 * rhs_arg[0] + dot(u1, rhs_arg1));
        assert(rhs_arg[0] == dot(row0, w));
    }
}

/// Matrix multiplication is associative: grouping does not change the
/// product of three same-size square matrices.
pub proof fn lemma_mat_mul_assoc(a: Seq<int>, b: Seq<int>, m: Seq<int>, n: nat)
    requires
        n >= 1,
        a.len() == n * n,
        b.len() == n * n,
        m.len() == n * n,
    ensures
        mat_mul(mat_mul(a, b, n), m, n) == mat_mul(a, mat_mul(b, m, n), n),
{
    let ab = mat_mul(a, b, n);
    let bm = mat_mul(b, m, n);
    let rows_b = Seq::new(n, |j: int| row(b, n, j));
    assert forall|i: int| 0 <= i < n * n implies mat_mul(ab, m, n)[i] == mat_mul(a, bm, n)[i] by {
        let ni = n as int;
        vstd::arithmetic::div_mod::lemma_div_pos_is_pos(i, ni);
        vstd::arithmetic::div_mod::lemma_multiply_divide_lt(i, ni, ni);
        vstd::arithmetic::div_mod::lemma_mod_bound(i, ni);
        let r = i / ni;
        let cc = i % ni;
        let u = row(a, n, r);
        let w = col(m, n, cc);
        assert forall|k: int| 0 <= k < n implies row(ab, n, r)[k] == dot(u, col_of(rows_b, k)) by {
            lemma_flat_index(r, k, ni);
            assert(row(ab, n, r)[k] == ab[r * ni + k]);
            assert(ab[r * ni + k] == dot(row(a, n, r), col(b, n, k)));
            assert(col_of(rows_b, k) =~= col(b, n, k));
        }
        assert(row(ab, n, r) =~= Seq::new(n, |k: int| dot(u, col_of(rows_b, k))));
        assert forall|j: int| 0 <= j < n implies col(bm, n, cc)[j] == dot(rows_b[j], w) by {
            lemma_flat_index(j, cc, ni);
            assert(col(bm, n, cc)[j] == bm[j * ni + cc]);
            assert(bm[j * ni + cc] == dot(row(b, n, j), col(m, n, cc)));
        }
        assert(col(bm, n, cc) =~= Seq::new(rows_b.len(), |j: int| dot(rows_b[j], w)));
        lemma_dot_interchange(u, rows_b, w, n);
        assert(mat_mul(ab, m, n)[i] == dot(row(ab, n, r), col(m, n, cc)));
        assert(mat_mul(a, bm, n)[i] == dot(u, col(bm, n, cc)));
    }
    assert(mat_mul(mat_mul(a, b, n), m, n) =~= mat_mul(a, mat_mul(b, m, n), n));
}

/// The identity matrix (1 on the diagonal, 0 elsewhere, row-major) applied
/// to any vector gives that vector back unchanged.
pub proof fn lemma_identity_transform(v: Seq<int>, n: nat)
    requires
        v.len() == n,
    ensures
        mat_vec(identity_seq(n), v, n) == v,
{
    assert forall|r: int| 0 <= r < n implies mat_vec(identity_seq(n), v, n)[r] == v[r] by {
        assert forall|k: int| 0 <= k < n implies row(identity_seq(n), n, r)[k] == unit_seq(
            n,
            r,
        )[k] by {
            lemma_flat_index(r, k, n as int);
        }
        assert(row(identity_seq(n), n, r) =~= unit_seq(n, r));
        lemma_dot_unit(n, r, v);
    }
    assert(mat_vec(identity_seq(n), v, n) =~= v);
}

} // verus!
