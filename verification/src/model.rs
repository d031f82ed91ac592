//! The city model: named city objects, a transform and the vertex registry.

use crate::decimal::Coordinate;
use crate::registry::VertexRegistry;
use crate::vertex::Vertex;
use vstd::prelude::*;

verus! {

/// One triangle, by the registry indices of its three corners.
#[derive(Clone, Copy, Debug, PartialEq, Eq, Hash, Structural)]
pub struct TriangleIndices {
    pub a: usize,
    pub b: usize,
    pub c: usize,
}

impl TriangleIndices {
    /// The three indices in order.
    pub open spec fn corners(self) -> Seq<usize> {
        seq![self.a, self.b, self.c]
    }

    /// Whether each index is below `count`.
    pub open spec fn within(self, count: nat) -> bool {
        self.a < count && self.b < count && self.c < count
    }

    /// The triangle of the three indices that `iter` holds.
    pub fn from_vec(iter: Vec<usize>) -> (t: TriangleIndices)
        requires
            iter.len() == 3,
        ensures
            t.corners() == iter@,
    {
        let t = TriangleIndices { a: iter[0], b: iter[1], c: iter[2] };
        assert(t.corners() =~= iter@);
        t
    }

    /// The three indices in order.
    pub fn to_vec(&self) -> (v: Vec<usize>)
        ensures
            v@ == self.corners(),
    {
        let mut v: Vec<usize> = Vec::new();
        v.push(self.a);
        v.push(self.b);
        v.push(self.c);
        assert(v@ =~= self.corners());
        v
    }
}

/// The kinds of city object.
#[derive(Clone, Copy, Debug, PartialEq, Eq, Hash, Structural)]
pub enum CityObjectType {
    CityFurniture,
    CityObjectGroup,
    GenericCityObject,
    LandUse,
    PlantCover,
    SolitaryVegetationObject,
    WaterBody,
    AuxiliaryTrafficArea,
    Railway,
    Road,
    Track,
    TrafficArea,
    Tunnel,
    Bridge,
    BridgeConstructionElement,
    BridgeFurniture,
    BridgeInstallation,
    BridgePart,
    BridgeRoom,
    BridgeRoofSurface,
    BridgeWallSurface,
    Building,
    BuildingInstallation,
    TINRelief,
}

/// The kinds of geometry.
#[derive(Clone, Copy, Debug, PartialEq, Eq, Hash, Structural)]
pub enum CityObjectGeometryType {
    CompositeSolid,
    MultiSolid,
    MultiCurve,
    MultiPoint,
    MultiSolidCoverage,
    MultiSurfaceCoverage,
    MultiCurveCoverage,
    MultiPointCoverage,
    CompositeCurve,
    CompositePoint,
    CompositeSurface,
    MultiSurface,
}

/// The level of detail of a geometry.
#[derive(Clone, Copy, Debug, PartialEq, Eq, Hash, Structural)]
pub enum CityObjectGeometryLOD {
    One,
    Two,
    Three,
}

/// One ring set of a surface: a sequence of triangles.
#[derive(Clone, Debug, PartialEq, Eq)]
pub struct Boundary(pub Vec<TriangleIndices>);

impl View for Boundary {
    type V = Seq<TriangleIndices>;

    open spec fn view(&self) -> Seq<TriangleIndices> {
        self.0@
    }
}

/// What a geometry holds.
pub ghost struct GeometryView {
    pub kind: CityObjectGeometryType,
    pub lod: CityObjectGeometryLOD,
    pub boundaries: Seq<Seq<TriangleIndices>>,
}

/// One geometry of a city object.
#[derive(Clone, Debug, PartialEq, Eq)]
pub struct CityObjectGeometry {
    pub kind: CityObjectGeometryType,
    pub lod: CityObjectGeometryLOD,
    pub boundaries: Vec<Boundary>,
}

impl View for CityObjectGeometry {
    type V = GeometryView;

    open spec fn view(&self) -> GeometryView {
        GeometryView {
            kind: self.kind,
            lod: self.lod,
            boundaries: Seq::new(self.boundaries@.len(), |i: int| self.boundaries@[i]@),
        }
    }
}

/// What a city object holds.
pub ghost struct ObjectView {
    pub kind: CityObjectType,
    pub geometry: Seq<GeometryView>,
}

/// One city object: its kind and its geometries.
#[derive(Clone, Debug, PartialEq, Eq)]
pub struct CityObject {
    pub kind: CityObjectType,
    pub geometry: Vec<CityObjectGeometry>,
}

impl View for CityObject {
    type V = ObjectView;

    open spec fn view(&self) -> ObjectView {
        ObjectView {
            kind: self.kind,
            geometry: Seq::new(self.geometry@.len(), |i: int| self.geometry@[i]@),
        }
    }
}

impl CityObject {
    /// A city object of the given kind without geometry.
    pub fn new(kind: CityObjectType) -> (object: CityObject)
        ensures
            object@ == (ObjectView { kind, geometry: Seq::empty() }),
    {
        let object = CityObject { kind, geometry: Vec::new() };
        assert(object@.geometry =~= Seq::empty());
        object
    }
}

/// The transform of a city model: a scale and a translation for each axis.
#[derive(Clone, Copy, Debug, PartialEq, Eq, Structural)]
pub struct CityModelTransform {
    pub scale: Vertex,
    pub translate: Vertex,
}

impl CityModelTransform {
    /// The transform that leaves every coordinate as it is: scale one,
    /// translation zero.
    pub open spec fn identity_spec() -> CityModelTransform {
        let one = Coordinate { mantissa: 1, scale: 0 };
        let zero = Coordinate { mantissa: 0, scale: 0 };
        CityModelTransform {
            scale: Vertex { x: one, y: one, z: one },
            translate: Vertex { x: zero, y: zero, z: zero },
        }
    }

    /// The identity transform.
    pub fn identity() -> (t: CityModelTransform)
        ensures
            t == Self::identity_spec(),
    {
        let one = Coordinate { mantissa: 1, scale: 0 };
        let zero = Coordinate { mantissa: 0, scale: 0 };
        CityModelTransform {
            scale: Vertex { x: one, y: one, z: one },
            translate: Vertex { x: zero, y: zero, z: zero },
        }
    }
}

impl GeometryView {
    /// Whether every index of every triangle is below `count`.
    pub open spec fn within(self, count: nat) -> bool {
        forall|b: int, t: int|
            0 <= b < self.boundaries.len() && 0 <= t < self.boundaries[b].len() ==> (
            #[trigger] self.boundaries[b][t]).within(count)
    }
}

impl ObjectView {
    /// Whether every index of every triangle of every geometry is below
    /// `count`.
    pub open spec fn within(self, count: nat) -> bool {
        forall|g: int| 0 <= g < self.geometry.len() ==> (#[trigger] self.geometry[g]).within(count)
    }
}

/// The index of the first of `entries` that has the name `name`.
pub open spec fn find_name(entries: Seq<(Seq<char>, ObjectView)>, name: Seq<char>) -> Option<int>
    decreases entries.len(),
{
    if entries.len() == 0 {
        None
    } else {
        match find_name(entries.drop_last(), name) {
            Some(i) => Some(i),
            None => if entries.last().0 == name {
                Some(entries.len() - 1)
            } else {
                None
            },
        }
    }
}

/// The entries after `object` was inserted under `name`: it takes the place
/// of the entry that had the name, else it stands behind the others.
pub open spec fn upsert(
    entries: Seq<(Seq<char>, ObjectView)>,
    name: Seq<char>,
    object: ObjectView,
) -> Seq<(Seq<char>, ObjectView)> {
    match find_name(entries, name) {
        Some(i) => entries.update(i, (name, object)),
        None => entries.push((name, object)),
    }
}

/// Whether no two of `entries` have the same name.
pub open spec fn unique_names(entries: Seq<(Seq<char>, ObjectView)>) -> bool {
    forall|i: int, j: int|
        0 <= i < j < entries.len() ==> (#[trigger] entries[i]).0 != (#[trigger] entries[j]).0
}

/// What `find_name` finds: the first entry with the name, when there is one.
pub proof fn lemma_find_name(entries: Seq<(Seq<char>, ObjectView)>, name: Seq<char>)
    ensures
        match find_name(entries, name) {
            Some(i) => {
                &&& 0 <= i < entries.len()
                &&& entries[i].0 == name
                &&& forall|j: int| 0 <= j < i ==> (#[trigger] entries[j]).0 != name
            },
            None => forall|j: int| 0 <= j < entries.len() ==> (#[trigger] entries[j]).0 != name,
        },
    decreases entries.len(),
{
    if entries.len() > 0 {
        let front = entries.drop_last();
        lemma_find_name(front, name);
        assert forall|j: int| 0 <= j < front.len() implies front[j] == #[trigger] entries[j] by {}
    }
}

/// Inserting keeps the names unique.
pub proof fn lemma_upsert_unique(
    entries: Seq<(Seq<char>, ObjectView)>,
    name: Seq<char>,
    object: ObjectView,
)
    requires
        unique_names(entries),
    ensures
        unique_names(upsert(entries, name, object)),
{
    lemma_find_name(entries, name);
}

/// The city objects of a model under their names, in the order in which
/// the names were first inserted. No name occurs twice.
#[derive(Clone, Debug, PartialEq, Eq)]
pub struct ObjectMap {
    entries: Vec<(String, CityObject)>,
}

impl View for ObjectMap {
    type V = Seq<(Seq<char>, ObjectView)>;

    closed spec fn view(&self) -> Seq<(Seq<char>, ObjectView)> {
        Seq::new(self.entries@.len(), |i: int| (self.entries@[i].0@, self.entries@[i].1@))
    }
}

impl ObjectMap {
    /// No name occurs twice.
    pub open spec fn wf(&self) -> bool {
        unique_names(self@)
    }

    /// A map without objects.
    pub fn new() -> (m: ObjectMap)
        ensures
            m.wf(),
            m@ == Seq::<(Seq<char>, ObjectView)>::empty(),
    {
        let m = ObjectMap { entries: Vec::new() };
        assert(m@ =~= Seq::empty());
        m
    }

    /// The number of objects.
    pub fn len(&self) -> (n: usize)
        ensures
            n == self@.len(),
    {
        self.entries.len()
    }

    /// The name of the entry at index `i`.
    pub fn name_at(&self, i: usize) -> (name: &String)
        requires
            i < self@.len(),
        ensures
            name@ == self@[i as int].0,
    {
        &self.entries[i].0
    }

    /// The object of the entry at index `i`.
    pub fn object_at(&self, i: usize) -> (object: &CityObject)
        requires
            i < self@.len(),
        ensures
            object@ == self@[i as int].1,
    {
        &self.entries[i].1
    }

    /// The object under `name`, where there is one.
    pub fn get(&self, name: &String) -> (found: Option<&CityObject>)
        ensures
            match find_name(self@, name@) {
                Some(i) => found is Some && found->0@ == self@[i].1,
                None => found is None,
            },
    {
        let mut i: usize = 0;
        while i < self.entries.len()
            invariant
                i <= self.entries.len(),
                find_name(self@.take(i as int), name@) is None,
            decreases self.entries.len() - i,
        {
            proof {
                assert(self@.take(i + 1).drop_last() =~= self@.take(i as int));
            }
            if self.entries[i].0 == *name {
                proof {
                    lemma_find_prefix(self@, name@, i + 1);
                }
                return Some(&self.entries[i].1);
            }
            i = i + 1;
        }
        assert(self@.take(i as int) =~= self@);
        None
    }

    /// Inserts `object` under `name`. An object that stood under that name
    /// is replaced.
    pub fn insert(&mut self, name: String, object: CityObject)
        ensures
            final(self)@ == upsert(old(self)@, name@, object@),
            old(self).wf() ==> final(self).wf(),
    {
        proof {
            if self.wf() {
                lemma_upsert_unique(self@, name@, object@);
            }
        }
        let mut i: usize = 0;
        while i < self.entries.len()
            invariant
                i <= self.entries.len(),
                *self == *old(self),
                find_name(self@.take(i as int), name@) is None,
            decreases self.entries.len() - i,
        {
            proof {
                assert(self@.take(i + 1).drop_last() =~= self@.take(i as int));
            }
            if self.entries[i].0 == name {
                proof {
                    lemma_find_prefix(self@, name@, i + 1);
                }
                let ghost before = self@;
                let ghost (n, o) = (name@, object@);
                self.entries.set(i, (name, object));
                assert(self@ =~= before.update(i as int, (n, o)));
                return ;
            }
            i = i + 1;
        }
        assert(self@.take(i as int) =~= self@);
        let ghost before = self@;
        let ghost (n, o) = (name@, object@);
        self.entries.push((name, object));
        assert(self@ =~= before.push((n, o)));
    }
}

/// What a city model holds.
pub ghost struct ModelView {
    pub objects: Seq<(Seq<char>, ObjectView)>,
    pub transform: CityModelTransform,
    pub vertices: Seq<Vertex>,
}

impl ModelView {
    /// Whether every triangle index of every object is a position in the
    /// vertex sequence.
    pub open spec fn indexed(self) -> bool {
        forall|i: int|
            0 <= i < self.objects.len() ==> (#[trigger] self.objects[i]).1.within(
                self.vertices.len(),
            )
    }

    /// The model without objects and vertices, under the identity
    /// transform.
    pub open spec fn empty() -> ModelView {
        ModelView {
            objects: Seq::empty(),
            transform: CityModelTransform::identity_spec(),
            vertices: Seq::empty(),
        }
    }
}

/// The whole document: the city objects under their names, the transform,
/// and the vertex registry that the triangles of the objects index.
#[derive(Debug)]
pub struct CityModel {
    pub objects: ObjectMap,
    pub transform: CityModelTransform,
    pub vertices: VertexRegistry,
}

impl View for CityModel {
    type V = ModelView;

    open spec fn view(&self) -> ModelView {
        ModelView { objects: self.objects@, transform: self.transform, vertices: self.vertices@ }
    }
}

impl CityModel {
    /// No object name occurs twice, and the registry holds no point twice.
    pub open spec fn wf(&self) -> bool {
        self.objects.wf() && self.vertices.valid()
    }

    /// The model without objects and vertices, under the identity
    /// transform.
    pub fn empty() -> (model: CityModel)
        ensures
            model.wf(),
            model@ == ModelView::empty(),
    {
        CityModel {
            objects: ObjectMap::new(),
            transform: CityModelTransform::identity(),
            vertices: VertexRegistry::new(),
        }
    }
}

/// A name found among the first `n` entries is found among all at the same
/// index.
pub proof fn lemma_find_prefix(entries: Seq<(Seq<char>, ObjectView)>, name: Seq<char>, n: int)
    requires
        0 <= n <= entries.len(),
        find_name(entries.take(n), name) is Some,
    ensures
        find_name(entries, name) == find_name(entries.take(n), name),
    decreases entries.len() - n,
{
    if n < entries.len() {
        assert(entries.take(n + 1).drop_last() =~= entries.take(n));
        lemma_find_prefix(entries, name, n + 1);
    } else {
        assert(entries.take(n) =~= entries);
    }
}

} // verus!
