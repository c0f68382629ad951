//! Executable routines shared by every vector and matrix size, each verified
//! once against the model in `crate::model`.

use vstd::prelude::*;

use crate::model::{
    add_const_seq, add_seq, bounded, col, div_seq, div_trunc, dot, ints, lemma_dot_prefix,
    lemma_flat_index, mat_mul, mat_vec, row, scale_seq, sub_const_seq, sub_seq, ENTRY_LIMIT,
};

verus! {

/// Two factors within the entry limit give a product within 2^60.
proof fn lemma_entry_product_bound(x: int, y: int)
    requires
        -0x4000_0000 <= x <= 0x4000_0000,
        -0x4000_0000 <= y <= 0x4000_0000,
    ensures
        -0x1000_0000_0000_0000 <= x * y <= 0x1000_0000_0000_0000,
{
    assert(-0x1000_0000_0000_0000 <= x * y <= 0x1000_0000_0000_0000) by (nonlinear_arith)
        requires
            -0x4000_0000 <= x <= 0x4000_0000,
            -0x4000_0000 <= y <= 0x4000_0000,
    ;
}


/// Division of machine integers, truncating toward zero as `/` does.
/// The divisor may not be zero, and `i64::MIN / -1` does not fit in `i64`.
pub(crate) fn div_i64(a: i64, d: i64) -> (r: i64)
    requires
        d != 0,
        !(a == i64::MIN && d == -1),
    ensures
        r == div_trunc(a as int, d as int),
{
    if d > 0 {
        a / d
    } else if d == i64::MIN {
        // The divisor's magnitude exceeds every dividend but i64::MIN itself.
        if a == i64::MIN {
            1
        } else {
            proof {
                vstd::arithmetic::div_mod::lemma_basic_div(
                    crate::model::abs_int(a as int),
                    -(i64::MIN as int),
                );
            }
            0
        }
    } else {
        // `-d` is a positive i64 here, so the machine division below is the
        // positive-divisor case, and negating its result truncates toward zero.
        let nd = -d;
        proof {
            let ai = a as int;
            let ndi = nd as int;
            if ai >= 0 {
                vstd::arithmetic::div_mod::lemma_div_pos_is_pos(ai, ndi);
                vstd::arithmetic::div_mod::lemma_div_nonincreasing(ai, ndi);
            } else {
                vstd::arithmetic::div_mod::lemma_div_pos_is_pos(-ai, ndi);
                if ndi >= 2 {
                    vstd::arithmetic::div_mod::lemma_div_is_ordered_by_denominator(-ai, 2, ndi);
                    vstd::arithmetic::div_mod::lemma_div_is_ordered(-ai, 0x8000_0000_0000_0000, 2);
                } else {
                    // ndi == 1, so d == -1 and the dividend is not i64::MIN
                    vstd::arithmetic::div_mod::lemma_div_basics(-ai);
                }
            }
        }
        -(a / nd)
    }
}

/// Component-wise sum of two arrays.
pub(crate) fn add_arrays<const M: usize>(a: &[i64; M], b: &[i64; M]) -> (r: [i64; M])
    requires
        forall|i: int| 0 <= i < M ==> i64::MIN <= #[trigger] a@[i] + b@[i] <= i64::MAX,
    ensures
        ints(r@) == add_seq(ints(a@), ints(b@)),
{
    let mut out = [0i64; M];
    let mut i: usize = 0;
    while i < M
        invariant
            i <= M,
            forall|j: int| 0 <= j < M ==> i64::MIN <= #[trigger] a@[j] + b@[j] <= i64::MAX,
            forall|j: int| 0 <= j < i ==> out@[j] == a@[j] + b@[j],
        decreases M - i,
    {
        out[i] = a[i] + b[i];
        i += 1;
    }
    proof {
        assert(ints(out@) =~= add_seq(ints(a@), ints(b@)));
    }
    out
}

/// Component-wise difference of two arrays.
pub(crate) fn sub_arrays<const M: usize>(a: &[i64; M], b: &[i64; M]) -> (r: [i64; M])
    requires
        forall|i: int| 0 <= i < M ==> i64::MIN <= #[trigger] a@[i] - b@[i] <= i64::MAX,
    ensures
        ints(r@) == sub_seq(ints(a@), ints(b@)),
{
    let mut out = [0i64; M];
    let mut i: usize = 0;
    while i < M
        invariant
            i <= M,
            forall|j: int| 0 <= j < M ==> i64::MIN <= #[trigger] a@[j] - b@[j] <= i64::MAX,
            forall|j: int| 0 <= j < i ==> out@[j] == a@[j] - b@[j],
        decreases M - i,
    {
        out[i] = a[i] - b[i];
        i += 1;
    }
    proof {
        assert(ints(out@) =~= sub_seq(ints(a@), ints(b@)));
    }
    out
}

/// The scalar `c` added to every component (broadcast).
pub(crate) fn add_scalar_array<const M: usize>(a: &[i64; M], c: i64) -> (r: [i64; M])
    requires
        forall|i: int| 0 <= i < M ==> i64::MIN <= #[trigger] a@[i] + c <= i64::MAX,
    ensures
        ints(r@) == add_const_seq(ints(a@), c as int),
{
    let mut out = [0i64; M];
    let mut i: usize = 0;
    while i < M
        invariant
            i <= M,
            forall|j: int| 0 <= j < M ==> i64::MIN <= #[trigger] a@[j] + c <= i64::MAX,
            forall|j: int| 0 <= j < i ==> out@[j] == a@[j] + c,
        decreases M - i,
    {
        out[i] = a[i] + c;
        i += 1;
    }
    proof {
        assert(ints(out@) =~= add_const_seq(ints(a@), c as int));
    }
    out
}

/// The scalar `c` subtracted from every component (broadcast).
pub(crate) fn sub_scalar_array<const M: usize>(a: &[i64; M], c: i64) -> (r: [i64; M])
    requires
        forall|i: int| 0 <= i < M ==> i64::MIN <= #[trigger] a@[i] - c <= i64::MAX,
    ensures
        ints(r@) == sub_const_seq(ints(a@), c as int),
{
    let mut out = [0i64; M];
    let mut i: usize = 0;
    while i < M
        invariant
            i <= M,
            forall|j: int| 0 <= j < M ==> i64::MIN <= #[trigger] a@[j] - c <= i64::MAX,
            forall|j: int| 0 <= j < i ==> out@[j] == a@[j] - c,
        decreases M - i,
    {
        out[i] = a[i] - c;
        i += 1;
    }
    proof {
        assert(ints(out@) =~= sub_const_seq(ints(a@), c as int));
    }
    out
}

/// Every component multiplied by the scalar `c`.
pub(crate) fn scale_array<const M: usize>(a: &[i64; M], c: i64) -> (r: [i64; M])
    requires
        forall|i: int| 0 <= i < M ==> i64::MIN <= #[trigger] a@[i] * c <= i64::MAX,
    ensures
        ints(r@) == scale_seq(ints(a@), c as int),
{
    let mut out = [0i64; M];
    let mut i: usize = 0;
    while i < M
        invariant
            i <= M,
            forall|j: int| 0 <= j < M ==> i64::MIN <= #[trigger] a@[j] * c <= i64::MAX,
            forall|j: int| 0 <= j < i ==> out@[j] == a@[j] * c,
        decreases M - i,
    {
        out[i] = a[i] * c;
        i += 1;
    }
    proof {
        assert(ints(out@) =~= scale_seq(ints(a@), c as int));
    }
    out
}

/// Every component divided by the scalar `d`, truncating toward zero.
pub(crate) fn div_array<const M: usize>(a: &[i64; M], d: i64) -> (r: [i64; M])
    requires
        d != 0,
        forall|i: int| 0 <= i < M ==> !(#[trigger] a@[i] == i64::MIN && d == -1),
    ensures
        ints(r@) == div_seq(ints(a@), d as int),
{
    let mut out = [0i64; M];
    let mut i: usize = 0;
    while i < M
        invariant
            d != 0,
            i <= M,
            forall|j: int| 0 <= j < M ==> !(#[trigger] a@[j] == i64::MIN && d == -1),
            forall|j: int| 0 <= j < i ==> out@[j] == div_trunc(a@[j] as int, d as int),
        decreases M - i,
    {
        out[i] = div_i64(a[i], d);
        i += 1;
    }
    proof {
        assert(ints(out@) =~= div_seq(ints(a@), d as int));
    }
    out
}

/// The product of two square matrices held as flat row-major arrays.
pub(crate) fn mat_mul_raw<const M: usize>(a: &[i64; M], b: &[i64; M], n: usize) -> (r: [i64; M])
    requires
        1 <= n <= 4,
        n * n == M,
        bounded(ints(a@), ENTRY_LIMIT as int),
        bounded(ints(b@), ENTRY_LIMIT as int),
    ensures
        ints(r@) == mat_mul(ints(a@), ints(b@), n as nat),
{
    let ghost ia = ints(a@);
    let ghost ib = ints(b@);
    let ghost prod = mat_mul(ia, ib, n as nat);
    let mut out = [0i64; M];
    let mut rr: usize = 0;
    while rr < n
        invariant
            rr <= n,
            1 <= n <= 4,
            n * n == M,
            ia == ints(a@),
            ib == ints(b@),
            prod == mat_mul(ia, ib, n as nat),
            bounded(ia, ENTRY_LIMIT as int),
            bounded(ib, ENTRY_LIMIT as int),
            forall|i: int| 0 <= i < rr * n ==> ints(out@)[i] == prod[i],
        decreases n - rr,
    {
        let mut cc: usize = 0;
        while cc < n
            invariant
                rr < n,
                cc <= n,
                1 <= n <= 4,
                n * n == M,
                ia == ints(a@),
                ib == ints(b@),
                prod == mat_mul(ia, ib, n as nat),
                bounded(ia, ENTRY_LIMIT as int),
                bounded(ib, ENTRY_LIMIT as int),
                forall|i: int| 0 <= i < rr * n + cc ==> ints(out@)[i] == prod[i],
            decreases n - cc,
        {
            let ghost rowa = row(ia, n as nat, rr as int);
            let ghost colb = col(ib, n as nat, cc as int);
            let mut k: usize = 0;
            let mut acc: i64 = 0;
            while k < n
                invariant
                    rr < n,
                    cc < n,
                    k <= n,
                    1 <= n <= 4,
                    n * n == M,
                    ia == ints(a@),
                    ib == ints(b@),
                    bounded(ia, ENTRY_LIMIT as int),
                    bounded(ib, ENTRY_LIMIT as int),
                    rowa == row(ia, n as nat, rr as int),
                    colb == col(ib, n as nat, cc as int),
                    acc == dot(rowa.take(k as int), colb.take(k as int)),
                    -(k as int) * 0x1000_0000_0000_0000 <= acc <= (k as int)
                        * 0x1000_0000_0000_0000,
                decreases n - k,
            {
                proof {
                    lemma_flat_index(rr as int, k as int, n as int);
                    lemma_flat_index(k as int, cc as int, n as int);
                    lemma_entry_product_bound(
                        ia[rr as int * (n as int) + k as int],
                        ib[k as int * (n as int) + cc as int],
                    );
                    lemma_dot_prefix(rowa, colb, k as int);
                }
                let va = a[rr * n + k];
                let vb = b[k * n + cc];
                acc = acc + va * vb;
                k += 1;
            }
            proof {
                assert(rowa.take(n as int) =~= rowa);
                assert(colb.take(n as int) =~= colb);
                lemma_flat_index(rr as int, cc as int, n as int);
            }
            out[rr * n + cc] = acc;
            cc += 1;
        }
        proof {
            assert((rr + 1) * n == rr * n + n) by (nonlinear_arith);
        }
        rr += 1;
    }
    proof {
        assert(ints(out@) =~= mat_mul(ia, ib, n as nat));
    }
    out
}

/// A square matrix applied to a vector, both held as flat arrays.
pub(crate) fn mat_vec_raw<const M: usize, const N: usize>(
    m: &[i64; M],
    v: &[i64; N],
    n: usize,
) -> (r: [i64; N])
    requires
        1 <= n <= 4,
        n * n == M,
        n == N,
        bounded(ints(m@), ENTRY_LIMIT as int),
        bounded(ints(v@), ENTRY_LIMIT as int),
    ensures
        ints(r@) == mat_vec(ints(m@), ints(v@), n as nat),
{
    let ghost im = ints(m@);
    let ghost iv = ints(v@);
    let ghost image = mat_vec(im, iv, n as nat);
    let mut out = [0i64; N];
    let mut rr: usize = 0;
    while rr < n
        invariant
            rr <= n,
            1 <= n <= 4,
            n * n == M,
            n == N,
            im == ints(m@),
            iv == ints(v@),
            image == mat_vec(im, iv, n as nat),
            bounded(im, ENTRY_LIMIT as int),
            bounded(iv, ENTRY_LIMIT as int),
            forall|i: int| 0 <= i < rr ==> ints(out@)[i] == image[i],
        decreases n - rr,
    {
        let ghost rowm = row(im, n as nat, rr as int);
        let mut k: usize = 0;
        let mut acc: i64 = 0;
        while k < n
            invariant
                rr < n,
                k <= n,
                1 <= n <= 4,
                n * n == M,
                n == N,
                im == ints(m@),
                iv == ints(v@),
                bounded(im, ENTRY_LIMIT as int),
                bounded(iv, ENTRY_LIMIT as int),
                rowm == row(im, n as nat, rr as int),
                acc == dot(rowm.take(k as int), iv.take(k as int)),
                -(k as int) * 0x1000_0000_0000_0000 <= acc <= (k as int) * 0x1000_0000_0000_0000,
            decreases n - k,
        {
            proof {
                lemma_flat_index(rr as int, k as int, n as int);
                lemma_entry_product_bound(im[rr as int * (n as int) + k as int], iv[k as int]);
                lemma_dot_prefix(rowm, iv, k as int);
            }
            let va = m[rr * n + k];
            let vb = v[k];
            acc = acc + va * vb;
            k += 1;
        }
        proof {
            assert(rowm.take(n as int) =~= rowm);
            assert(iv.take(n as int) =~= iv);
        }
        out[rr] = acc;
        rr += 1;
    }
    proof {
        assert(ints(out@) =~= mat_vec(im, iv, n as nat));
    }
    out
}

} // verus!
