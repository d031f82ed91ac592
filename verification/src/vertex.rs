//! Points in space and the keys under which they are found again.

use crate::decimal::{lemma_same_value_canonical, lemma_same_value_transitive, Coordinate};
use vstd::prelude::*;

verus! {

/// One point, by its three coordinates.
#[derive(Clone, Copy, Debug, PartialEq, Eq, Hash, Structural)]
pub struct Vertex {
    pub x: Coordinate,
    pub y: Coordinate,
    pub z: Coordinate,
}

/// The fields of the canonical representations of a point's coordinates:
/// mantissa and scale of `x`, then of `y`, then of `z`.
pub type PointKey = (i128, u32, i128, u32, i128, u32);

impl Vertex {
    /// Whether `self` and `other` are the same point: each coordinate of one
    /// stands for the same number as that of the other.
    pub open spec fn same_point(self, other: Vertex) -> bool {
        &&& self.x.same_value(other.x)
        &&& self.y.same_value(other.y)
        &&& self.z.same_value(other.z)
    }

    /// The key of the point: equal for two vertices exactly when they are
    /// the same point.
    pub open spec fn key_spec(self) -> PointKey {
        let (x, y, z) = (self.x.canonical(), self.y.canonical(), self.z.canonical());
        (x.mantissa, x.scale, y.mantissa, y.scale, z.mantissa, z.scale)
    }

    /// Tells whether `self` and `other` are the same point.
    pub fn is_same_point(&self, other: &Vertex) -> (same: bool)
        ensures
            same == self.same_point(*other),
    {
        self.x.is_same_value(&other.x) && self.y.is_same_value(&other.y) && self.z.is_same_value(
            &other.z,
        )
    }

    /// Computes the key of the point.
    pub fn key(&self) -> (k: PointKey)
        ensures
            k == self.key_spec(),
    {
        let x = self.x.normalize();
        let y = self.y.normalize();
        let z = self.z.normalize();
        (x.mantissa, x.scale, y.mantissa, y.scale, z.mantissa, z.scale)
    }
}

/// Two vertices have the same key exactly when they are the same point.
pub proof fn lemma_key_same_point(a: Vertex, b: Vertex)
    ensures
        a.key_spec() == b.key_spec() <==> a.same_point(b),
{
    lemma_same_value_canonical(a.x, b.x);
    lemma_same_value_canonical(a.y, b.y);
    lemma_same_value_canonical(a.z, b.z);
}

/// Every vertex is the same point as itself.
pub proof fn lemma_same_point_reflexive(a: Vertex)
    ensures
        a.same_point(a),
{
}

/// Being the same point does not depend on the order of the two.
pub proof fn lemma_same_point_symmetric(a: Vertex, b: Vertex)
    ensures
        a.same_point(b) == b.same_point(a),
{
}

/// Being the same point is transitive.
pub proof fn lemma_same_point_transitive(a: Vertex, b: Vertex, c: Vertex)
    requires
        a.same_point(b),
        b.same_point(c),
    ensures
        a.same_point(c),
{
    lemma_same_value_transitive(a.x, b.x, c.x);
    lemma_same_value_transitive(a.y, b.y, c.y);
    lemma_same_value_transitive(a.z, b.z, c.z);
}

} // verus!
