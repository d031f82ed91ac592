//! The geometry of a relief feature, built from its triangles.

use crate::model::{
    Boundary, CityObjectGeometry, CityObjectGeometryLOD, CityObjectGeometryType, GeometryView,
    TriangleIndices,
};
use vstd::prelude::*;

verus! {

/// The geometry of a relief feature with the given triangles: a composite
/// surface of level of detail two, in which each triangle is a boundary of
/// its own.
pub open spec fn relief_geometry_spec(triangles: Seq<TriangleIndices>) -> GeometryView {
    GeometryView {
        kind: CityObjectGeometryType::CompositeSurface,
        lod: CityObjectGeometryLOD::Two,
        boundaries: Seq::new(triangles.len(), |i: int| seq![triangles[i]]),
    }
}

/// Builds the geometry of a relief feature from its triangles.
pub fn relief_geometry(triangles: Vec<TriangleIndices>) -> (geometry: CityObjectGeometry)
    ensures
        geometry@ == relief_geometry_spec(triangles@),
{
    let mut boundaries: Vec<Boundary> = Vec::new();
    let mut i: usize = 0;
    while i < triangles.len()
        invariant
            i <= triangles.len(),
            boundaries@.len() == i,
            forall|j: int| 0 <= j < i ==> (#[trigger] boundaries@[j])@ == seq![triangles@[j]],
        decreases triangles.len() - i,
    {
        let mut ring: Vec<TriangleIndices> = Vec::new();
        ring.push(triangles[i]);
        assert(ring@ =~= seq![triangles@[i as int]]);
        boundaries.push(Boundary(ring));
        i = i + 1;
    }
    let geometry = CityObjectGeometry {
        kind: CityObjectGeometryType::CompositeSurface,
        lod: CityObjectGeometryLOD::Two,
        boundaries,
    };
    assert(geometry@.boundaries =~= relief_geometry_spec(triangles@).boundaries);
    geometry
}

} // verus!
