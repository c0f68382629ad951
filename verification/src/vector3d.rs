use vstd::prelude::*;

use crate::kernel::div_i64;
use crate::model::{add_const_seq, add_seq, const_seq, div_seq, dot, ints, scale_seq, sub_const_seq, sub_seq};

verus! {

/// A 3-component vector of exact integer scalars, the components named in
/// declaration order.
#[derive(Debug, Clone, Copy, PartialEq, Eq, Structural)]
pub struct Vector3d {
    pub x: i64,
    pub y: i64,
    pub z: i64,
}

impl View for Vector3d {
    type V = Seq<int>;

    open spec fn view(&self) -> Seq<int> {
        seq![self.x as int, self.y as int, self.z as int]
    }
}

impl Vector3d {
    /// Builds the vector from exactly 3 values, assigned positionally.
    pub fn new_from(values: [i64; 3]) -> (r: Self)
        ensures
            r@ == ints(values@),
    {
        let r = Self { x: values[0], y: values[1], z: values[2] };
        proof {
            assert(r@ =~= ints(values@));
        }
        r
    }

    /// Every component set to the constant `c`.
    pub fn new_from_const(c: i64) -> (r: Self)
        ensures
            r@ == const_seq(3, c as int),
    {
        let r = Self { x: c, y: c, z: c };
        proof {
            assert(r@ =~= const_seq(3, c as int));
        }
        r
    }

    /// The zero vector: every component 0.
    pub fn new() -> (r: Self)
        ensures
            r@ == const_seq(3, 0),
    {
        Self::new_from_const(0)
    }

    /// The components in declaration order.
    pub fn to_list(&self) -> (r: [i64; 3])
        ensures
            ints(r@) == self@,
    {
        let r = [self.x, self.y, self.z];
        proof {
            assert(ints(r@) =~= self@);
        }
        r
    }

    /// The components in declaration order, as a growable vector.
    pub fn to_vec(&self) -> (r: Vec<i64>)
        ensures
            ints(r@) == self@,
    {
        let mut r: Vec<i64> = Vec::new();
        r.push(self.x);
        r.push(self.y);
        r.push(self.z);
        proof {
            assert(ints(r@) =~= self@);
        }
        r
    }

    /// The component at position `i` (0-based).
    pub fn at(&self, i: usize) -> (r: i64)
        requires
            i < 3,
        ensures
            r == self@[i as int],
    {
        if i == 0 {
            self.x
        } else if i == 1 {
            self.y
        } else {
            self.z
        }
    }

    /// Replaces the single component at position `i` (0-based).
    pub fn set(&mut self, i: usize, value: i64)
        requires
            i < 3,
        ensures
            final(self)@ == old(self)@.update(i as int, value as int),
    {
        if i == 0 {
            self.x = value;
        } else if i == 1 {
            self.y = value;
        } else {
            self.z = value;
        }
        proof {
            assert(self@ =~= old(self)@.update(i as int, value as int));
        }
    }

    /// Component-wise sum with another vector.
    pub fn plus(&self, o: &Self) -> (r: Self)
        requires
            i64::MIN <= self.x + o.x <= i64::MAX,
            i64::MIN <= self.y + o.y <= i64::MAX,
            i64::MIN <= self.z + o.z <= i64::MAX,
        ensures
            r@ == add_seq(self@, o@),
    {
        let r = Self { x: self.x + o.x, y: self.y + o.y, z: self.z + o.z };
        proof {
            assert(r@ =~= add_seq(self@, o@));
        }
        r
    }

    /// The scalar `c` added to every component (broadcast).
    pub fn plus_scalar(&self, c: i64) -> (r: Self)
        requires
            i64::MIN <= self.x + c <= i64::MAX,
            i64::MIN <= self.y + c <= i64::MAX,
            i64::MIN <= self.z + c <= i64::MAX,
        ensures
            r@ == add_const_seq(self@, c as int),
    {
        let r = Self { x: self.x + c, y: self.y + c, z: self.z + c };
        proof {
            assert(r@ =~= add_const_seq(self@, c as int));
        }
        r
    }

    /// Component-wise difference with another vector.
    pub fn minus(&self, o: &Self) -> (r: Self)
        requires
            i64::MIN <= self.x - o.x <= i64::MAX,
            i64::MIN <= self.y - o.y <= i64::MAX,
            i64::MIN <= self.z - o.z <= i64::MAX,
        ensures
            r@ == sub_seq(self@, o@),
    {
        let r = Self { x: self.x - o.x, y: self.y - o.y, z: self.z - o.z };
        proof {
            assert(r@ =~= sub_seq(self@, o@));
        }
        r
    }

    /// The scalar `c` subtracted from every component (broadcast).
    pub fn minus_scalar(&self, c: i64) -> (r: Self)
        requires
            i64::MIN <= self.x - c <= i64::MAX,
            i64::MIN <= self.y - c <= i64::MAX,
            i64::MIN <= self.z - c <= i64::MAX,
        ensures
            r@ == sub_const_seq(self@, c as int),
    {
        let r = Self { x: self.x - c, y: self.y - c, z: self.z - c };
        proof {
            assert(r@ =~= sub_const_seq(self@, c as int));
        }
        r
    }

    /// Inner product: the sum of the component-wise products. This is the
    /// only multiplication of two vectors; it is scalar-valued, never
    /// component-wise.
    pub fn dot(&self, o: &Self) -> (r: i64)
        requires
            i64::MIN <= self.x * o.x <= i64::MAX,
            i64::MIN <= self.y * o.y <= i64::MAX,
            i64::MIN <= self.z * o.z <= i64::MAX,
            i64::MIN <= self.x * o.x + self.y * o.y <= i64::MAX,
            i64::MIN <= self.x * o.x + self.y * o.y + self.z * o.z <= i64::MAX,
        ensures
            r == dot(self@, o@),
            r == self.x * o.x + self.y * o.y + self.z * o.z,
    {
        let r = self.x * o.x + self.y * o.y + self.z * o.z;
        proof {
            reveal_with_fuel(dot, 4);
            assert(self@.drop_first() =~= seq![self.y as int, self.z as int]);
            assert(o@.drop_first() =~= seq![o.y as int, o.z as int]);
            assert(seq![self.y as int, self.z as int].drop_first() =~= seq![self.z as int]);
            assert(seq![o.y as int, o.z as int].drop_first() =~= seq![o.z as int]);
            assert(seq![self.z as int].drop_first() =~= Seq::<int>::empty());
            assert(seq![o.z as int].drop_first() =~= Seq::<int>::empty());
        }
        r
    }

    /// Every component multiplied by the scalar `c`.
    pub fn scale(&self, c: i64) -> (r: Self)
        requires
            i64::MIN <= self.x * c <= i64::MAX,
            i64::MIN <= self.y * c <= i64::MAX,
            i64::MIN <= self.z * c <= i64::MAX,
        ensures
            r@ == scale_seq(self@, c as int),
    {
        let r = Self { x: self.x * c, y: self.y * c, z: self.z * c };
        proof {
            assert(r@ =~= scale_seq(self@, c as int));
        }
        r
    }

    /// True exactly when every corresponding component is equal; there is no
    /// tolerance of any kind.
    pub fn equals(&self, o: &Self) -> (r: bool)
        ensures
            r <==> (self@ == o@),
    {
        let r = *self == *o;
        proof {
            if self@ == o@ {
                assert(self@[0] == o@[0]);
                assert(self@[1] == o@[1]);
                assert(self@[2] == o@[2]);
            }
        }
        r
    }

    /// Every component divided by the scalar `d`, truncating toward zero.
    pub fn divide(&self, d: i64) -> (r: Self)
        requires
            d != 0,
            !(self.x == i64::MIN && d == -1),
            !(self.y == i64::MIN && d == -1),
            !(self.z == i64::MIN && d == -1),
        ensures
            r@ == div_seq(self@, d as int),
    {
        let r = Self { x: div_i64(self.x, d), y: div_i64(self.y, d), z: div_i64(self.z, d) };
        proof {
            assert(r@ =~= div_seq(self@, d as int));
        }
        r
    }
}

/// The components determine the vector: two vectors with the same view are
/// the same value, so rebuilding a vector from its own component list gives
/// it back exactly (the construction/conversion round trip).
pub proof fn lemma_vector3_view_determines(a: Vector3d, b: Vector3d)
    requires
        a@ == b@,
    ensures
        a == b,
{
    assert(a@[0] == b@[0]);
    assert(a@[1] == b@[1]);
    assert(a@[2] == b@[2]);
}

/// Equality of vectors is exact equality of every corresponding component:
/// it is reflexive, symmetric, and admits no tolerance.
pub proof fn lemma_vector3_eq_exact(a: Vector3d, b: Vector3d)
    ensures
        (a == b) <==> (a.x == b.x && a.y == b.y && a.z == b.z),
        a == a,
        (a == b) <==> (b == a),
{
}

} // verus!
