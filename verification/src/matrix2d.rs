use vstd::prelude::*;

use crate::kernel::{
    add_arrays, add_scalar_array, mat_mul_raw, mat_vec_raw, scale_array, sub_arrays,
    sub_scalar_array,
};
use crate::model::{
    add_const_seq, add_seq, bounded, const_seq, ints, mat_mul, mat_vec, scale_seq, sub_const_seq,
    sub_seq, ENTRY_LIMIT,
};
use crate::vector2d::Vector2d;

verus! {

/// A 2-by-2 matrix of exact integer entries, stored row-major: the entry at
/// row r, column c lives at flat index r * 2 + c. The view is the flat
/// sequence of the 4 entries.
#[derive(Debug, Clone, Copy, PartialEq, Eq)]
pub struct Matrix2d {
    v: [i64; 4],
}

impl View for Matrix2d {
    type V = Seq<int>;

    closed spec fn view(&self) -> Seq<int> {
        ints(self.v@)
    }
}

/// The view of a 2-by-2 matrix always has exactly 4 entries.
pub broadcast proof fn lemma_matrix2_len(m: Matrix2d)
    ensures
        (#[trigger] m@).len() == 4,
{
}

impl Matrix2d {
    /// The number of rows, always 2.
    pub fn get_rows(&self) -> (r: i32)
        ensures
            r == 2,
    {
        2
    }

    /// The number of columns, always 2.
    pub fn get_cols(&self) -> (r: i32)
        ensures
            r == 2,
    {
        2
    }

    /// Builds the matrix from exactly 4 values in row-major order.
    pub fn new(v: [i64; 4]) -> (r: Self)
        ensures
            r@ == ints(v@),
    {
        Matrix2d { v }
    }

    /// Every entry set to the constant `c`.
    pub fn new_from_constant(c: i64) -> (r: Self)
        ensures
            r@ == const_seq(4, c as int),
    {
        let r = Matrix2d { v: [c, c, c, c] };
        proof {
            assert(r@ =~= const_seq(4, c as int));
        }
        r
    }

    /// The entry at flat position `i` (0-based, row-major).
    pub fn at(&self, i: usize) -> (r: i64)
        requires
            i < 4,
        ensures
            r == self@[i as int],
    {
        self.v[i]
    }

    /// Replaces the single entry at flat position `i` (0-based, row-major).
    pub fn set(&mut self, i: usize, value: i64)
        requires
            i < 4,
        ensures
            final(self)@ == old(self)@.update(i as int, value as int),
    {
        self.v[i] = value;
        proof {
            assert(self@ =~= old(self)@.update(i as int, value as int));
        }
    }

    /// Entry-wise sum with another matrix of the same shape.
    pub fn plus(&self, o: &Self) -> (r: Self)
        requires
            forall|i: int| 0 <= i < 4 ==> i64::MIN <= #[trigger] self@[i] + o@[i] <= i64::MAX,
        ensures
            r@ == add_seq(self@, o@),
    {
        proof {
            assert forall|i: int| 0 <= i < 4 implies i64::MIN <= #[trigger] self.v@[i] + o.v@[i]
                <= i64::MAX by {
                assert(self@[i] == self.v@[i] as int);
                assert(o@[i] == o.v@[i] as int);
            }
        }
        Matrix2d { v: add_arrays(&self.v, &o.v) }
    }

    /// The scalar `c` added to every entry (broadcast).
    pub fn plus_scalar(&self, c: i64) -> (r: Self)
        requires
            forall|i: int| 0 <= i < 4 ==> i64::MIN <= #[trigger] self@[i] + c <= i64::MAX,
        ensures
            r@ == add_const_seq(self@, c as int),
    {
        proof {
            assert forall|i: int| 0 <= i < 4 implies i64::MIN <= #[trigger] self.v@[i] + c
                <= i64::MAX by {
                assert(self@[i] == self.v@[i] as int);
            }
        }
        Matrix2d { v: add_scalar_array(&self.v, c) }
    }

    /// Entry-wise difference with another matrix of the same shape.
    pub fn minus(&self, o: &Self) -> (r: Self)
        requires
            forall|i: int| 0 <= i < 4 ==> i64::MIN <= #[trigger] self@[i] - o@[i] <= i64::MAX,
        ensures
            r@ == sub_seq(self@, o@),
    {
        proof {
            assert forall|i: int| 0 <= i < 4 implies i64::MIN <= #[trigger] self.v@[i] - o.v@[i]
                <= i64::MAX by {
                assert(self@[i] == self.v@[i] as int);
                assert(o@[i] == o.v@[i] as int);
            }
        }
        Matrix2d { v: sub_arrays(&self.v, &o.v) }
    }

    /// The scalar `c` subtracted from every entry (broadcast).
    pub fn minus_scalar(&self, c: i64) -> (r: Self)
        requires
            forall|i: int| 0 <= i < 4 ==> i64::MIN <= #[trigger] self@[i] - c <= i64::MAX,
        ensures
            r@ == sub_const_seq(self@, c as int),
    {
        proof {
            assert forall|i: int| 0 <= i < 4 implies i64::MIN <= #[trigger] self.v@[i] - c
                <= i64::MAX by {
                assert(self@[i] == self.v@[i] as int);
            }
        }
        Matrix2d { v: sub_scalar_array(&self.v, c) }
    }

    /// Every entry multiplied by the scalar `c`.
    pub fn scale(&self, c: i64) -> (r: Self)
        requires
            forall|i: int| 0 <= i < 4 ==> i64::MIN <= #[trigger] self@[i] * c <= i64::MAX,
        ensures
            r@ == scale_seq(self@, c as int),
    {
        proof {
            assert forall|i: int| 0 <= i < 4 implies i64::MIN <= #[trigger] self.v@[i] * c
                <= i64::MAX by {
                assert(self@[i] == self.v@[i] as int);
            }
        }
        Matrix2d { v: scale_array(&self.v, c) }
    }

    /// The standard matrix product; the operand order matters.
    pub fn multiply(&self, o: &Self) -> (r: Self)
        requires
            bounded(self@, ENTRY_LIMIT as int),
            bounded(o@, ENTRY_LIMIT as int),
        ensures
            r@ == mat_mul(self@, o@, 2),
    {
        Matrix2d { v: mat_mul_raw(&self.v, &o.v, 2) }
    }

    /// The matrix applied to a vector as a linear map: component i of the
    /// result is the inner product of row i with the vector.
    pub fn transform(&self, vec: &Vector2d) -> (r: Vector2d)
        requires
            bounded(self@, ENTRY_LIMIT as int),
            bounded(vec@, ENTRY_LIMIT as int),
        ensures
            r@ == mat_vec(self@, vec@, 2),
    {
        let arr = vec.to_list();
        let out = mat_vec_raw(&self.v, &arr, 2);
        Vector2d::new_from(out)
    }

    /// True exactly when every corresponding entry is equal; there is no
    /// tolerance of any kind.
    pub fn equals(&self, o: &Self) -> (r: bool)
        ensures
            r <==> self@ == o@,
    {
        let mut i: usize = 0;
        while i < 4
            invariant
                i <= 4,
                forall|j: int| 0 <= j < i ==> self.v@[j] == o.v@[j],
            decreases 4 - i,
        {
            if self.v[i] != o.v[i] {
                proof {
                    assert(self@[i as int] != o@[i as int]);
                }
                return false;
            }
            i += 1;
        }
        proof {
            assert(self@ =~= o@);
        }
        true
    }
}

/// The entries determine the matrix: two matrices with the same view are the
/// same value, so rebuilding a matrix from its own entries gives it back
/// exactly.
pub proof fn lemma_matrix2_view_determines(a: Matrix2d, b: Matrix2d)
    requires
        a@ == b@,
    ensures
        a == b,
{
    assert forall|i: int| 0 <= i < 4 implies a.v@[i] == b.v@[i] by {
        assert(a@[i] == a.v@[i] as int);
        assert(b@[i] == b.v@[i] as int);
    }
    assert(a.v =~= b.v);
}

/// Equality of matrices is exact equality of every corresponding entry:
/// it is reflexive, symmetric, and admits no tolerance.
pub proof fn lemma_matrix2_eq_exact(a: Matrix2d, b: Matrix2d)
    ensures
        (a@ == b@) <==> (forall|i: int| 0 <= i < 4 ==> #[trigger] a@[i] == b@[i]),
        a@ == a@,
        (a@ == b@) <==> (b@ == a@),
{
    if forall|i: int| 0 <= i < 4 ==> #[trigger] a@[i] == b@[i] {
        assert(a@ =~= b@);
    }
}

} // verus!
