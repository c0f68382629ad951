use vstd::prelude::*;

use crate::kernel::{
    add_arrays, add_scalar_array, mat_mul_raw, mat_vec_raw, scale_array, sub_arrays,
    sub_scalar_array,
};
use crate::model::{
    add_const_seq, add_seq, bounded, const_seq, ints, mat_mul, mat_vec, scale_seq, sub_const_seq,
    sub_seq, ENTRY_LIMIT,
};
use crate::vector4d::Vector4d;

verus! {

/// A 4-by-4 matrix of exact integer entries, stored row-major: the entry at
/// row r, column c lives at flat index r * 4 + c. The view is the flat
/// sequence of the 16 entries.
#[derive(Debug, Clone, Copy, PartialEq, Eq)]
pub struct Matrix4d {
    v: [i64; 16],
}

impl View for Matrix4d {
    type V = Seq<int>;

    closed spec fn view(&self) -> Seq<int> {
        ints(self.v@)
    }
}

/// The view of a 4-by-4 matrix always has exactly 16 entries.
pub broadcast proof fn lemma_matrix4_len(m: Matrix4d)
    ensures
        (#[trigger] m@).len() == 16,
{
}

impl Matrix4d {
    /// The number of rows, always 4.
    pub fn get_rows(&self) -> (r: i32)
        ensures
            r == 4,
    {
        4
    }

    /// The number of columns, always 4.
    pub fn get_cols(&self) -> (r: i32)
        ensures
            r == 4,
    {
        4
    }

    /// Builds the matrix from exactly 16 values in row-major order.
    pub fn new(v: [i64; 16]) -> (r: Self)
        ensures
            r@ == ints(v@),
    {
        Matrix4d { v }
    }

    /// Every entry set to the constant `c`.
    pub fn new_from_constant(c: i64) -> (r: Self)
        ensures
            r@ == const_seq(16, c as int),
    {
        let r = Matrix4d { v: [c; 16] };
        proof {
            assert(r@ =~= const_seq(16, c as int));
        }
        r
    }

    /// The entry at flat position `i` (0-based, row-major).
    pub fn at(&self, i: usize) -> (r: i64)
        requires
            i < 16,
        ensures
            r == self@[i as int],
    {
        self.v[i]
    }

    /// Replaces the single entry at flat position `i` (0-based, row-major).
    pub fn set(&mut self, i: usize, value: i64)
        requires
            i < 16,
        ensures
            final(self)@ == old(self)@.update(i as int, value as int),
    {
        self.v[i] = value;
        proof {
            assert(self@ =~= old(self)@.update(i as int, value as int));
        }
    }

    /// Entry-wise sum with another matrix of the same shape.
    pub fn plus(&self, o: &Self) -> (r: Self)
        requires
            forall|i: int| 0 <= i < 16 ==> i64::MIN <= #[trigger] self@[i] + o@[i] <= i64::MAX,
        ensures
            r@ == add_seq(self@, o@),
    {
        proof {
            assert forall|i: int| 0 <= i < 16 implies i64::MIN <= #[trigger] self.v@[i] + o.v@[i]
                <= i64::MAX by {
                assert(self@[i] == self.v@[i] as int);
                assert(o@[i] == o.v@[i] as int);
            }
        }
        Matrix4d { v: add_arrays(&self.v, &o.v) }
    }

    /// The scalar `c` added to every entry (broadcast).
    pub fn plus_scalar(&self, c: i64) -> (r: Self)
        requires
            forall|i: int| 0 <= i < 16 ==> i64::MIN <= #[trigger] self@[i] + c <= i64::MAX,
        ensures
            r@ == add_const_seq(self@, c as int),
    {
        proof {
            assert forall|i: int| 0 <= i < 16 implies i64::MIN <= #[trigger] self.v@[i] + c
                <= i64::MAX by {
                assert(self@[i] == self.v@[i] as int);
            }
        }
        Matrix4d { v: add_scalar_array(&self.v, c) }
    }

    /// Entry-wise difference with another matrix of the same shape.
    pub fn minus(&self, o: &Self) -> (r: Self)
        requires
            forall|i: int| 0 <= i < 16 ==> i64::MIN <= #[trigger] self@[i] - o@[i] <= i64::MAX,
        ensures
            r@ == sub_seq(self@, o@),
    {
        proof {
            assert forall|i: int| 0 <= i < 16 implies i64::MIN <= #[trigger] self.v@[i] - o.v@[i]
                <= i64::MAX by {
                assert(self@[i] == self.v@[i] as int);
                assert(o@[i] == o.v@[i] as int);
            }
        }
        Matrix4d { v: sub_arrays(&self.v, &o.v) }
    }

    /// The scalar `c` subtracted from every entry (broadcast).
    pub fn minus_scalar(&self, c: i64) -> (r: Self)
        requires
            forall|i: int| 0 <= i < 16 ==> i64::MIN <= #[trigger] self@[i] - c <= i64::MAX,
        ensures
            r@ == sub_const_seq(self@, c as int),
    {
        proof {
            assert forall|i: int| 0 <= i < 16 implies i64::MIN <= #[trigger] self.v@[i] - c
                <= i64::MAX by {
                assert(self@[i] == self.v@[i] as int);
            }
        }
        Matrix4d { v: sub_scalar_array(&self.v, c) }
    }

    /// Every entry multiplied by the scalar `c`.
    pub fn scale(&self, c: i64) -> (r: Self)
        requires
            forall|i: int| 0 <= i < 16 ==> i64::MIN <= #[trigger] self@[i] * c <= i64::MAX,
        ensures
            r@ == scale_seq(self@, c as int),
    {
        proof {
            assert forall|i: int| 0 <= i < 16 implies i64::MIN <= #[trigger] self.v@[i] * c
                <= i64::MAX by {
                assert(self@[i] == self.v@[i] as int);
            }
        }
        Matrix4d { v: scale_array(&self.v, c) }
    }

    /// The standard matrix product; the operand order matters.
    pub fn multiply(&self, o: &Self) -> (r: Self)
        requires
            bounded(self@, ENTRY_LIMIT as int),
            bounded(o@, ENTRY_LIMIT as int),
        ensures
            r@ == mat_mul(self@, o@, 4),
    {
        Matrix4d { v: mat_mul_raw(&self.v, &o.v, 4) }
    }

    /// The matrix applied to a vector as a linear map: component i of the
    /// result is the inner product of row i with the vector.
    pub fn transform(&self, vec: &Vector4d) -> (r: Vector4d)
        requires
            bounded(self@, ENTRY_LIMIT as int),
            bounded(vec@, ENTRY_LIMIT as int),
        ensures
            r@ == mat_vec(self@, vec@, 4),
    {
        let arr = vec.to_list();
        let out = mat_vec_raw(&self.v, &arr, 4);
        Vector4d::new_from(out)
    }

    /// True exactly when every corresponding entry is equal; there is no
    /// tolerance of any kind.
    pub fn equals(&self, o: &Self) -> (r: bool)
        ensures
            r <==> self@ == o@,
    {
        let mut i: usize = 0;
        while i < 16
            invariant
                i <= 16,
                forall|j: int| 0 <= j < i ==> self.v@[j] == o.v@[j],
            decreases 16 - i,
        {
            if self.v[i] != o.v[i] {
                proof {
                    assert(self@[i as int] != o@[i as int]);
                }
                return false;
            }
            i += 1;
        }
        proof {
            assert(self@ =~= o@);
        }
        true
    }
}

/// The entries determine the matrix: two matrices with the same view are the
/// same value, so rebuilding a matrix from its own entries gives it back
/// exactly.
pub proof fn lemma_matrix4_view_determines(a: Matrix4d, b: Matrix4d)
    requires
        a@ == b@,
    ensures
        a == b,
{
    assert forall|i: int| 0 <= i < 16 implies a.v@[i] == b.v@[i] by {
        assert(a@[i] == a.v@[i] as int);
        assert(b@[i] == b.v@[i] as int);
    }
    assert(a.v =~= b.v);
}

/// Equality of matrices is exact equality of every corresponding entry:
/// it is reflexive, symmetric, and admits no tolerance.
pub proof fn lemma_matrix4_eq_exact(a: Matrix4d, b: Matrix4d)
    ensures
        (a@ == b@) <==> (forall|i: int| 0 <= i < 16 ==> #[trigger] a@[i] == b@[i]),
        a@ == a@,
        (a@ == b@) <==> (b@ == a@),
{
    if forall|i: int| 0 <= i < 16 ==> #[trigger] a@[i] == b@[i] {
        assert(a@ =~= b@);
    }
}

} // verus!
