//! The CityJSON document of a city model, in plain values, and the way
//! from a model to its document and back.

use crate::decimal::Coordinate;
use crate::error::DecodeError;
use crate::model::{
    find_name, lemma_find_name, unique_names, upsert, Boundary, CityModel, CityModelTransform,
    CityObject, CityObjectGeometry, CityObjectGeometryLOD, CityObjectGeometryType, CityObjectType,
    GeometryView, ModelView, ObjectMap, ObjectView, TriangleIndices,
};
use crate::registry::{distinct, interned_all, lemma_interned_all_distinct, VertexRegistry};
use crate::tags::{
    lemma_geometry_tag_round_trip, lemma_lod_tag_round_trip, lemma_object_tag_round_trip,
};
use crate::vertex::Vertex;
use vstd::prelude::*;

verus! {

/// What the record of a geometry holds.
pub ghost struct GeometryRecordView {
    pub kind: Seq<char>,
    pub lod: Seq<char>,
    pub boundaries: Seq<Seq<Seq<usize>>>,
}

/// A geometry as it stands in a document: the tag of its kind, the token
/// of its level of detail, and each boundary as a list of index triples.
#[derive(Clone, Debug, PartialEq, Eq)]
pub struct GeometryRecord {
    pub kind: String,
    pub lod: String,
    pub boundaries: Vec<Vec<Vec<usize>>>,
}

impl View for GeometryRecord {
    type V = GeometryRecordView;

    open spec fn view(&self) -> GeometryRecordView {
        GeometryRecordView {
            kind: self.kind@,
            lod: self.lod@,
            boundaries: self.boundaries.deep_view(),
        }
    }
}

/// What the record of a city object holds.
pub ghost struct ObjectRecordView {
    pub kind: Seq<char>,
    pub geometry: Seq<GeometryRecordView>,
}

/// A city object as it stands in a document.
#[derive(Clone, Debug, PartialEq, Eq)]
pub struct ObjectRecord {
    pub kind: String,
    pub geometry: Vec<GeometryRecord>,
}

impl View for ObjectRecord {
    type V = ObjectRecordView;

    open spec fn view(&self) -> ObjectRecordView {
        ObjectRecordView {
            kind: self.kind@,
            geometry: Seq::new(self.geometry@.len(), |i: int| self.geometry@[i]@),
        }
    }
}

/// What the record of a transform holds.
pub ghost struct TransformRecordView {
    pub scale: Seq<Coordinate>,
    pub translate: Seq<Coordinate>,
}

/// A transform as it stands in a document.
#[derive(Clone, Debug, PartialEq, Eq)]
pub struct TransformRecord {
    pub scale: Vec<Coordinate>,
    pub translate: Vec<Coordinate>,
}

impl View for TransformRecord {
    type V = TransformRecordView;

    open spec fn view(&self) -> TransformRecordView {
        TransformRecordView { scale: self.scale@, translate: self.translate@ }
    }
}

/// What a document holds.
pub ghost struct DocumentView {
    pub kind: Seq<char>,
    pub version: Seq<char>,
    pub transform: TransformRecordView,
    pub objects: Seq<(Seq<char>, ObjectRecordView)>,
    pub vertices: Seq<Seq<Coordinate>>,
}

/// A CityJSON document. Its fields stand in the order in which the
/// document is written: the format name, the version, the transform, the
/// city objects under their names, and the vertices.
#[derive(Clone, Debug, PartialEq, Eq)]
pub struct Document {
    pub kind: String,
    pub version: String,
    pub transform: TransformRecord,
    pub objects: Vec<(String, ObjectRecord)>,
    pub vertices: Vec<Vec<Coordinate>>,
}

impl View for Document {
    type V = DocumentView;

    open spec fn view(&self) -> DocumentView {
        DocumentView {
            kind: self.kind@,
            version: self.version@,
            transform: self.transform@,
            objects: Seq::new(
                self.objects@.len(),
                |i: int| (self.objects@[i].0@, self.objects@[i].1@),
            ),
            vertices: Seq::new(self.vertices@.len(), |i: int| self.vertices@[i]@),
        }
    }
}

/// The three coordinates of a point in order.
pub open spec fn encode_vertex(v: Vertex) -> Seq<Coordinate> {
    seq![v.x, v.y, v.z]
}

/// The index triples of the triangles of a boundary.
pub open spec fn encode_boundary(boundary: Seq<TriangleIndices>) -> Seq<Seq<usize>> {
    Seq::new(boundary.len(), |i: int| boundary[i].corners())
}

/// The record of a geometry.
pub open spec fn encode_geometry(geometry: GeometryView) -> GeometryRecordView {
    GeometryRecordView {
        kind: geometry.kind.tag_spec(),
        lod: geometry.lod.tag_spec(),
        boundaries: Seq::new(
            geometry.boundaries.len(),
            |i: int| encode_boundary(geometry.boundaries[i]),
        ),
    }
}

/// The record of a city object.
pub open spec fn encode_object(object: ObjectView) -> ObjectRecordView {
    ObjectRecordView {
        kind: object.kind.tag_spec(),
        geometry: Seq::new(object.geometry.len(), |i: int| encode_geometry(object.geometry[i])),
    }
}

/// The record of a transform.
pub open spec fn encode_transform(transform: CityModelTransform) -> TransformRecordView {
    TransformRecordView {
        scale: encode_vertex(transform.scale),
        translate: encode_vertex(transform.translate),
    }
}

/// The document of a model: the fixed header, the transform, each object
/// under its name in the order of the model, and each vertex at the
/// position of its index.
pub open spec fn encode_model(model: ModelView) -> DocumentView {
    DocumentView {
        kind: "CityJSON"@,
        version: "1.1"@,
        transform: encode_transform(model.transform),
        objects: Seq::new(
            model.objects.len(),
            |i: int| (model.objects[i].0, encode_object(model.objects[i].1)),
        ),
        vertices: Seq::new(model.vertices.len(), |i: int| encode_vertex(model.vertices[i])),
    }
}

impl Vertex {
    /// The three coordinates in order.
    pub fn to_record(&self) -> (row: Vec<Coordinate>)
        ensures
            row@ == encode_vertex(*self),
    {
        let mut row: Vec<Coordinate> = Vec::new();
        row.push(self.x);
        row.push(self.y);
        row.push(self.z);
        assert(row@ =~= encode_vertex(*self));
        row
    }
}

impl Boundary {
    /// The index triples of the triangles.
    pub fn to_record(&self) -> (rows: Vec<Vec<usize>>)
        ensures
            rows.deep_view() == encode_boundary(self@),
    {
        let mut rows: Vec<Vec<usize>> = Vec::new();
        let mut i: usize = 0;
        while i < self.0.len()
            invariant
                i <= self.0.len(),
                rows@.len() == i,
                forall|j: int| 0 <= j < i ==> (#[trigger] rows@[j])@ == self.0@[j].corners(),
            decreases self.0.len() - i,
        {
            rows.push(self.0[i].to_vec());
            i = i + 1;
        }
        assert(rows.deep_view() =~= encode_boundary(self@)) by {
            assert forall|j: int| 0 <= j < rows@.len() implies #[trigger] rows.deep_view()[j]
                == encode_boundary(self@)[j] by {
                assert(rows@[j].deep_view() =~= rows@[j]@);
            }
        }
        rows
    }
}

impl CityObjectGeometry {
    /// The record of the geometry.
    pub fn to_record(&self) -> (record: GeometryRecord)
        ensures
            record@ == encode_geometry(self@),
    {
        let mut boundaries: Vec<Vec<Vec<usize>>> = Vec::new();
        let mut i: usize = 0;
        while i < self.boundaries.len()
            invariant
                i <= self.boundaries.len(),
                boundaries@.len() == i,
                forall|j: int|
                    0 <= j < i ==> (#[trigger] boundaries@[j]).deep_view() == encode_boundary(
                        self.boundaries@[j]@,
                    ),
            decreases self.boundaries.len() - i,
        {
            boundaries.push(self.boundaries[i].to_record());
            i = i + 1;
        }
        let record = GeometryRecord {
            kind: String::from_str(self.kind.tag()),
            lod: String::from_str(self.lod.tag()),
            boundaries,
        };
        assert(record@.boundaries =~= encode_geometry(self@).boundaries);
        record
    }
}

impl CityObject {
    /// The record of the city object.
    pub fn to_record(&self) -> (record: ObjectRecord)
        ensures
            record@ == encode_object(self@),
    {
        let mut geometry: Vec<GeometryRecord> = Vec::new();
        let mut i: usize = 0;
        while i < self.geometry.len()
            invariant
                i <= self.geometry.len(),
                geometry@.len() == i,
                forall|j: int|
                    0 <= j < i ==> (#[trigger] geometry@[j])@ == encode_geometry(
                        self.geometry@[j]@,
                    ),
            decreases self.geometry.len() - i,
        {
            geometry.push(self.geometry[i].to_record());
            i = i + 1;
        }
        let record = ObjectRecord { kind: String::from_str(self.kind.tag()), geometry };
        assert(record@.geometry =~= encode_object(self@).geometry);
        record
    }
}

impl CityModelTransform {
    /// The record of the transform.
    pub fn to_record(&self) -> (record: TransformRecord)
        ensures
            record@ == encode_transform(*self),
    {
        TransformRecord { scale: self.scale.to_record(), translate: self.translate.to_record() }
    }
}

impl CityModel {
    /// The document of the model. The document of a well-formed model is
    /// read back as that model.
    pub fn to_document(&self) -> (document: Document)
        ensures
            document@ == encode_model(self@),
            self.wf() ==> decode_model(document@) == Ok::<ModelView, DecodeError>(self@),
    {
        proof {
            if self.wf() {
                lemma_round_trip(self@);
            }
        }
        let mut objects: Vec<(String, ObjectRecord)> = Vec::new();
        let mut i: usize = 0;
        while i < self.objects.len()
            invariant
                i <= self.objects@.len(),
                objects@.len() == i,
                forall|j: int|
                    0 <= j < i ==> (#[trigger] objects@[j]).0@ == self.objects@[j].0
                        && objects@[j].1@ == encode_object(self.objects@[j].1),
            decreases self.objects@.len() - i,
        {
            let name = self.objects.name_at(i).clone();
            let record = self.objects.object_at(i).to_record();
            objects.push((name, record));
            i = i + 1;
        }
        let points = self.vertices.to_ordered_sequence();
        let mut vertices: Vec<Vec<Coordinate>> = Vec::new();
        let mut k: usize = 0;
        while k < points.len()
            invariant
                k <= points.len(),
                vertices@.len() == k,
                forall|j: int|
                    0 <= j < k ==> (#[trigger] vertices@[j])@ == encode_vertex(points@[j]),
            decreases points.len() - k,
        {
            vertices.push(points[k].to_record());
            k = k + 1;
        }
        let document = Document {
            kind: String::from_str("CityJSON"),
            version: String::from_str("1.1"),
            transform: self.transform.to_record(),
            objects,
            vertices,
        };
        assert(document@.objects =~= encode_model(self@).objects);
        assert(document@.vertices =~= encode_model(self@).vertices);
        document
    }
}

/// Reads each of `items` with `read`, from first to last: what was read,
/// or the first failure.
pub open spec fn decode_all<A, B>(
    items: Seq<A>,
    read: spec_fn(A) -> Result<B, DecodeError>,
) -> Result<Seq<B>, DecodeError>
    decreases items.len(),
{
    if items.len() == 0 {
        Ok(Seq::empty())
    } else {
        match decode_all(items.drop_last(), read) {
            Err(e) => Err(e),
            Ok(front) => match read(items.last()) {
                Err(e) => Err(e),
                Ok(item) => Ok(front.push(item)),
            },
        }
    }
}

/// A failure among the first `n` items is the failure of the whole.
pub proof fn lemma_decode_all_fails<A, B>(
    items: Seq<A>,
    read: spec_fn(A) -> Result<B, DecodeError>,
    n: int,
)
    requires
        0 <= n <= items.len(),
        decode_all(items.take(n), read) is Err,
    ensures
        decode_all(items, read) == decode_all(items.take(n), read),
    decreases items.len() - n,
{
    if n < items.len() {
        assert(items.take(n + 1).drop_last() =~= items.take(n));
        lemma_decode_all_fails(items, read, n + 1);
    } else {
        assert(items.take(n) =~= items);
    }
}

/// Items that were written with `write` and are read back by `read` one by
/// one are read back as a whole.
pub proof fn lemma_decode_all_written<A, B>(
    items: Seq<B>,
    write: spec_fn(B) -> A,
    read: spec_fn(A) -> Result<B, DecodeError>,
)
    requires
        forall|i: int|
            0 <= i < items.len() ==> read(write(#[trigger] items[i])) == Ok::<B, DecodeError>(
                items[i],
            ),
    ensures
        decode_all(Seq::new(items.len(), |i: int| write(items[i])), read) == Ok::<
            Seq<B>,
            DecodeError,
        >(items),
    decreases items.len(),
{
    let written = Seq::new(items.len(), |i: int| write(items[i]));
    if items.len() > 0 {
        let front = items.drop_last();
        lemma_decode_all_written(front, write, read);
        assert(written.drop_last() =~= Seq::new(front.len(), |i: int| write(front[i])));
        assert(front.push(items.last()) =~= items);
    } else {
        assert(items =~= Seq::empty());
    }
}

/// The triangle of an index triple.
pub open spec fn decode_triangle(row: Seq<usize>) -> Result<TriangleIndices, DecodeError> {
    if row.len() == 3 {
        Ok(TriangleIndices { a: row[0], b: row[1], c: row[2] })
    } else {
        Err(DecodeError::Triangle)
    }
}

/// The triangles of a boundary.
pub open spec fn decode_boundary(rows: Seq<Seq<usize>>) -> Result<
    Seq<TriangleIndices>,
    DecodeError,
> {
    decode_all(rows, |row: Seq<usize>| decode_triangle(row))
}

/// The geometry of a record: its kind, then its level of detail, then its
/// boundaries are read.
pub open spec fn decode_geometry(record: GeometryRecordView) -> Result<GeometryView, DecodeError> {
    match CityObjectGeometryType::of_tag(record.kind) {
        None => Err(DecodeError::GeometryType),
        Some(kind) => match CityObjectGeometryLOD::of_tag(record.lod) {
            None => Err(DecodeError::Lod),
            Some(lod) => match decode_all(
                record.boundaries,
                |rows: Seq<Seq<usize>>| decode_boundary(rows),
            ) {
                Err(e) => Err(e),
                Ok(boundaries) => Ok(GeometryView { kind, lod, boundaries }),
            },
        },
    }
}

/// The city object of a record: its kind, then its geometries are read.
pub open spec fn decode_object(record: ObjectRecordView) -> Result<ObjectView, DecodeError> {
    match CityObjectType::of_tag(record.kind) {
        None => Err(DecodeError::ObjectType),
        Some(kind) => match decode_all(
            record.geometry,
            |geometry: GeometryRecordView| decode_geometry(geometry),
        ) {
            Err(e) => Err(e),
            Ok(geometry) => Ok(ObjectView { kind, geometry }),
        },
    }
}

/// The objects of a document under their names: each is read and inserted
/// in order, so that of two with one name the later stays.
pub open spec fn decode_objects(records: Seq<(Seq<char>, ObjectRecordView)>) -> Result<
    Seq<(Seq<char>, ObjectView)>,
    DecodeError,
>
    decreases records.len(),
{
    if records.len() == 0 {
        Ok(Seq::empty())
    } else {
        match decode_objects(records.drop_last()) {
            Err(e) => Err(e),
            Ok(front) => match decode_object(records.last().1) {
                Err(e) => Err(e),
                Ok(object) => Ok(upsert(front, records.last().0, object)),
            },
        }
    }
}

/// The point of three coordinates.
pub open spec fn decode_vertex(row: Seq<Coordinate>) -> Result<Vertex, DecodeError> {
    if row.len() == 3 {
        Ok(Vertex { x: row[0], y: row[1], z: row[2] })
    } else {
        Err(DecodeError::Vertex)
    }
}

/// The registry entries of the vertices of a document: each is read, and
/// then each is interned, in the order of the document.
pub open spec fn decode_vertices(rows: Seq<Seq<Coordinate>>) -> Result<Seq<Vertex>, DecodeError> {
    match decode_all(rows, |row: Seq<Coordinate>| decode_vertex(row)) {
        Err(e) => Err(e),
        Ok(points) => Ok(interned_all(Seq::empty(), points)),
    }
}

/// The transform of a record.
pub open spec fn decode_transform(record: TransformRecordView) -> Result<
    CityModelTransform,
    DecodeError,
> {
    if record.scale.len() == 3 && record.translate.len() == 3 {
        Ok(
            CityModelTransform {
                scale: Vertex { x: record.scale[0], y: record.scale[1], z: record.scale[2] },
                translate: Vertex {
                    x: record.translate[0],
                    y: record.translate[1],
                    z: record.translate[2],
                },
            },
        )
    } else {
        Err(DecodeError::Transform)
    }
}

/// The model of a document: its objects, then its transform, then its
/// vertices are read. The format name and the version are not looked at.
pub open spec fn decode_model(document: DocumentView) -> Result<ModelView, DecodeError> {
    match decode_objects(document.objects) {
        Err(e) => Err(e),
        Ok(objects) => match decode_transform(document.transform) {
            Err(e) => Err(e),
            Ok(transform) => match decode_vertices(document.vertices) {
                Err(e) => Err(e),
                Ok(vertices) => Ok(ModelView { objects, transform, vertices }),
            },
        },
    }
}

impl Vertex {
    /// Reads a point from its coordinates.
    pub fn from_record(row: &Vec<Coordinate>) -> (r: Result<Vertex, DecodeError>)
        ensures
            r == decode_vertex(row@),
    {
        if row.len() == 3 {
            Ok(Vertex { x: row[0], y: row[1], z: row[2] })
        } else {
            Err(DecodeError::Vertex)
        }
    }
}

impl Boundary {
    /// Reads a boundary from its index triples.
    pub fn from_record(rows: &Vec<Vec<usize>>) -> (r: Result<Boundary, DecodeError>)
        ensures
            match r {
                Ok(boundary) => decode_boundary(rows.deep_view()) == Ok::<
                    Seq<TriangleIndices>,
                    DecodeError,
                >(boundary@),
                Err(e) => decode_boundary(rows.deep_view()) == Err::<
                    Seq<TriangleIndices>,
                    DecodeError,
                >(e),
            },
    {
        let ghost all = rows.deep_view();
        let ghost read = |row: Seq<usize>| decode_triangle(row);
        let mut triangles: Vec<TriangleIndices> = Vec::new();
        let mut i: usize = 0;
        assert(all.take(0) =~= Seq::empty());
        while i < rows.len()
            invariant
                i <= rows.len(),
                all == rows.deep_view(),
                read == |row: Seq<usize>| decode_triangle(row),
                decode_all(all.take(i as int), read) == Ok::<Seq<TriangleIndices>, DecodeError>(
                    triangles@,
                ),
            decreases rows.len() - i,
        {
            proof {
                assert(all.take(i + 1).drop_last() =~= all.take(i as int));
                assert(all.take(i + 1).last() == all[i as int]);
                assert(all[i as int] =~= rows@[i as int]@);
            }
            let row = &rows[i];
            if row.len() != 3 {
                proof {
                    lemma_decode_all_fails(all, read, i + 1);
                }
                return Err(DecodeError::Triangle);
            }
            triangles.push(TriangleIndices { a: row[0], b: row[1], c: row[2] });
            i = i + 1;
        }
        assert(all.take(i as int) =~= all);
        Ok(Boundary(triangles))
    }
}

impl CityObjectGeometry {
    /// Reads a geometry from its record.
    pub fn from_record(record: &GeometryRecord) -> (r: Result<CityObjectGeometry, DecodeError>)
        ensures
            match r {
                Ok(geometry) => decode_geometry(record@) == Ok::<GeometryView, DecodeError>(
                    geometry@,
                ),
                Err(e) => decode_geometry(record@) == Err::<GeometryView, DecodeError>(e),
            },
    {
        let kind = match CityObjectGeometryType::from_tag(record.kind.as_str()) {
            Some(kind) => kind,
            None => {
                return Err(DecodeError::GeometryType);
            },
        };
        let lod = match CityObjectGeometryLOD::from_tag(record.lod.as_str()) {
            Some(lod) => lod,
            None => {
                return Err(DecodeError::Lod);
            },
        };
        let ghost all = record@.boundaries;
        let ghost read = |rows: Seq<Seq<usize>>| decode_boundary(rows);
        let mut boundaries: Vec<Boundary> = Vec::new();
        let mut i: usize = 0;
        assert(all.take(0) =~= Seq::empty());
        assert(Seq::new(boundaries@.len(), |j: int| boundaries@[j]@) =~= Seq::empty());
        while i < record.boundaries.len()
            invariant
                i <= record.boundaries.len(),
                all == record@.boundaries,
                read == |rows: Seq<Seq<usize>>| decode_boundary(rows),
                CityObjectGeometryType::of_tag(record@.kind) == Some(kind),
                CityObjectGeometryLOD::of_tag(record@.lod) == Some(lod),
                decode_all(all.take(i as int), read) == Ok::<
                    Seq<Seq<TriangleIndices>>,
                    DecodeError,
                >(Seq::new(boundaries@.len(), |j: int| boundaries@[j]@)),
                boundaries@.len() == i,
            decreases record.boundaries.len() - i,
        {
            proof {
                assert(all.take(i + 1).drop_last() =~= all.take(i as int));
                assert(all.take(i + 1).last() == all[i as int]);
                assert(all[i as int] == record.boundaries@[i as int].deep_view());
            }
            let ghost before = Seq::new(boundaries@.len(), |j: int| boundaries@[j]@);
            match Boundary::from_record(&record.boundaries[i]) {
                Ok(boundary) => {
                    boundaries.push(boundary);
                    assert(Seq::new(boundaries@.len(), |j: int| boundaries@[j]@) =~= before.push(
                        boundary@,
                    ));
                },
                Err(e) => {
                    proof {
                        lemma_decode_all_fails(all, read, i + 1);
                    }
                    return Err(e);
                },
            }
            i = i + 1;
        }
        assert(all.take(i as int) =~= all);
        Ok(CityObjectGeometry { kind, lod, boundaries })
    }
}

impl CityObject {
    /// Reads a city object from its record.
    pub fn from_record(record: &ObjectRecord) -> (r: Result<CityObject, DecodeError>)
        ensures
            match r {
                Ok(object) => decode_object(record@) == Ok::<ObjectView, DecodeError>(object@),
                Err(e) => decode_object(record@) == Err::<ObjectView, DecodeError>(e),
            },
    {
        let kind = match CityObjectType::from_tag(record.kind.as_str()) {
            Some(kind) => kind,
            None => {
                return Err(DecodeError::ObjectType);
            },
        };
        let ghost all = record@.geometry;
        let ghost read = |geometry: GeometryRecordView| decode_geometry(geometry);
        let mut geometry: Vec<CityObjectGeometry> = Vec::new();
        let mut i: usize = 0;
        assert(all.take(0) =~= Seq::empty());
        assert(Seq::new(geometry@.len(), |j: int| geometry@[j]@) =~= Seq::empty());
        while i < record.geometry.len()
            invariant
                i <= record.geometry.len(),
                all == record@.geometry,
                read == |geometry: GeometryRecordView| decode_geometry(geometry),
                CityObjectType::of_tag(record@.kind) == Some(kind),
                decode_all(all.take(i as int), read) == Ok::<Seq<GeometryView>, DecodeError>(
                    Seq::new(geometry@.len(), |j: int| geometry@[j]@),
                ),
                geometry@.len() == i,
            decreases record.geometry.len() - i,
        {
            proof {
                assert(all.take(i + 1).drop_last() =~= all.take(i as int));
                assert(all.take(i + 1).last() == all[i as int]);
            }
            let ghost before = Seq::new(geometry@.len(), |j: int| geometry@[j]@);
            match CityObjectGeometry::from_record(&record.geometry[i]) {
                Ok(item) => {
                    geometry.push(item);
                    assert(Seq::new(geometry@.len(), |j: int| geometry@[j]@) =~= before.push(
                        item@,
                    ));
                },
                Err(e) => {
                    proof {
                        lemma_decode_all_fails(all, read, i + 1);
                    }
                    return Err(e);
                },
            }
            i = i + 1;
        }
        assert(all.take(i as int) =~= all);
        Ok(CityObject { kind, geometry })
    }
}

impl CityModelTransform {
    /// Reads a transform from its record.
    pub fn from_record(record: &TransformRecord) -> (r: Result<CityModelTransform, DecodeError>)
        ensures
            r == decode_transform(record@),
    {
        if record.scale.len() == 3 && record.translate.len() == 3 {
            Ok(
                CityModelTransform {
                    scale: Vertex { x: record.scale[0], y: record.scale[1], z: record.scale[2] },
                    translate: Vertex {
                        x: record.translate[0],
                        y: record.translate[1],
                        z: record.translate[2],
                    },
                },
            )
        } else {
            Err(DecodeError::Transform)
        }
    }
}

/// A failure among the first `n` objects is the failure of the whole.
pub proof fn lemma_decode_objects_fails(records: Seq<(Seq<char>, ObjectRecordView)>, n: int)
    requires
        0 <= n <= records.len(),
        decode_objects(records.take(n)) is Err,
    ensures
        decode_objects(records) == decode_objects(records.take(n)),
    decreases records.len() - n,
{
    if n < records.len() {
        assert(records.take(n + 1).drop_last() =~= records.take(n));
        lemma_decode_objects_fails(records, n + 1);
    } else {
        assert(records.take(n) =~= records);
    }
}

impl CityModel {
    /// Reads a model from its document. The objects are inserted under
    /// their names in the order of the document, and the vertices are
    /// interned in the order of the document.
    pub fn from_document(document: &Document) -> (r: Result<CityModel, DecodeError>)
        ensures
            match r {
                Ok(model) => model.wf() && decode_model(document@) == Ok::<ModelView, DecodeError>(
                    model@,
                ),
                Err(e) => decode_model(document@) == Err::<ModelView, DecodeError>(e),
            },
    {
        let ghost records = document@.objects;
        let mut objects = ObjectMap::new();
        let mut i: usize = 0;
        assert(records.take(0) =~= Seq::empty());
        while i < document.objects.len()
            invariant
                i <= document.objects.len(),
                records == document@.objects,
                objects.wf(),
                decode_objects(records.take(i as int)) == Ok::<
                    Seq<(Seq<char>, ObjectView)>,
                    DecodeError,
                >(objects@),
            decreases document.objects.len() - i,
        {
            proof {
                assert(records.take(i + 1).drop_last() =~= records.take(i as int));
                assert(records.take(i + 1).last() == records[i as int]);
            }
            match CityObject::from_record(&document.objects[i].1) {
                Ok(object) => {
                    objects.insert(document.objects[i].0.clone(), object);
                },
                Err(e) => {
                    proof {
                        lemma_decode_objects_fails(records, i + 1);
                    }
                    return Err(e);
                },
            }
            i = i + 1;
        }
        assert(records.take(i as int) =~= records);
        let transform = match CityModelTransform::from_record(&document.transform) {
            Ok(transform) => transform,
            Err(e) => {
                return Err(e);
            },
        };
        let ghost rows = document@.vertices;
        let ghost read = |row: Seq<Coordinate>| decode_vertex(row);
        let mut points: Vec<Vertex> = Vec::new();
        let mut k: usize = 0;
        assert(rows.take(0) =~= Seq::empty());
        while k < document.vertices.len()
            invariant
                k <= document.vertices.len(),
                rows == document@.vertices,
                read == |row: Seq<Coordinate>| decode_vertex(row),
                decode_all(rows.take(k as int), read) == Ok::<Seq<Vertex>, DecodeError>(points@),
                decode_objects(document@.objects) == Ok::<
                    Seq<(Seq<char>, ObjectView)>,
                    DecodeError,
                >(objects@),
                decode_transform(document@.transform) == Ok::<CityModelTransform, DecodeError>(
                    transform,
                ),
            decreases document.vertices.len() - k,
        {
            proof {
                assert(rows.take(k + 1).drop_last() =~= rows.take(k as int));
                assert(rows.take(k + 1).last() == rows[k as int]);
            }
            match Vertex::from_record(&document.vertices[k]) {
                Ok(v) => {
                    points.push(v);
                },
                Err(e) => {
                    proof {
                        lemma_decode_all_fails(rows, read, k + 1);
                    }
                    return Err(e);
                },
            }
            k = k + 1;
        }
        assert(rows.take(k as int) =~= rows);
        let mut vertices = VertexRegistry::new();
        vertices.intern_all(&points);
        Ok(CityModel { objects, transform, vertices })
    }
}

/// Reading the record of a boundary gives the boundary back.
pub proof fn lemma_boundary_round_trip(boundary: Seq<TriangleIndices>)
    ensures
        decode_boundary(encode_boundary(boundary)) == Ok::<Seq<TriangleIndices>, DecodeError>(
            boundary,
        ),
{
    let write = |t: TriangleIndices| t.corners();
    let read = |row: Seq<usize>| decode_triangle(row);
    lemma_decode_all_written(boundary, write, read);
    assert(encode_boundary(boundary) =~= Seq::new(boundary.len(), |i: int| write(boundary[i])));
}

/// Reading the record of a geometry gives the geometry back.
pub proof fn lemma_geometry_round_trip(geometry: GeometryView)
    ensures
        decode_geometry(encode_geometry(geometry)) == Ok::<GeometryView, DecodeError>(geometry),
{
    lemma_geometry_tag_round_trip(geometry.kind);
    lemma_lod_tag_round_trip(geometry.lod);
    let write = |b: Seq<TriangleIndices>| encode_boundary(b);
    let read = |rows: Seq<Seq<usize>>| decode_boundary(rows);
    let items = geometry.boundaries;
    assert forall|i: int| 0 <= i < items.len() implies read(write(#[trigger] items[i])) == Ok::<
        Seq<TriangleIndices>,
        DecodeError,
    >(items[i]) by {
        lemma_boundary_round_trip(items[i]);
    }
    lemma_decode_all_written(items, write, read);
    assert(encode_geometry(geometry).boundaries =~= Seq::new(
        items.len(),
        |i: int| write(items[i]),
    ));
}

/// Reading the record of a city object gives the city object back.
pub proof fn lemma_object_round_trip(object: ObjectView)
    ensures
        decode_object(encode_object(object)) == Ok::<ObjectView, DecodeError>(object),
{
    lemma_object_tag_round_trip(object.kind);
    let write = |g: GeometryView| encode_geometry(g);
    let read = |record: GeometryRecordView| decode_geometry(record);
    let items = object.geometry;
    assert forall|i: int| 0 <= i < items.len() implies read(write(#[trigger] items[i])) == Ok::<
        GeometryView,
        DecodeError,
    >(items[i]) by {
        lemma_geometry_round_trip(items[i]);
    }
    lemma_decode_all_written(items, write, read);
    assert(encode_object(object).geometry =~= Seq::new(items.len(), |i: int| write(items[i])));
}

/// The records of objects with unique names are read back as they were.
pub proof fn lemma_objects_round_trip(objects: Seq<(Seq<char>, ObjectView)>)
    requires
        unique_names(objects),
    ensures
        decode_objects(
            Seq::new(objects.len(), |i: int| (objects[i].0, encode_object(objects[i].1))),
        ) == Ok::<Seq<(Seq<char>, ObjectView)>, DecodeError>(objects),
    decreases objects.len(),
{
    let records = Seq::new(objects.len(), |i: int| (objects[i].0, encode_object(objects[i].1)));
    if objects.len() > 0 {
        let front = objects.drop_last();
        lemma_objects_round_trip(front);
        assert(records.drop_last() =~= Seq::new(
            front.len(),
            |i: int| (front[i].0, encode_object(front[i].1)),
        ));
        lemma_object_round_trip(objects.last().1);
        lemma_find_name(front, objects.last().0);
        assert(find_name(front, objects.last().0) is None) by {
            if find_name(front, objects.last().0) is Some {
                let i = find_name(front, objects.last().0)->0;
                assert(objects[i].0 == objects[objects.len() - 1].0);
            }
        }
        assert(front.push(objects.last()) =~= objects);
    } else {
        assert(objects =~= Seq::empty());
    }
}

/// The rows of vertices of which no two are the same point are read back
/// as they were.
pub proof fn lemma_vertices_round_trip(vertices: Seq<Vertex>)
    requires
        distinct(vertices),
    ensures
        decode_vertices(Seq::new(vertices.len(), |i: int| encode_vertex(vertices[i]))) == Ok::<
            Seq<Vertex>,
            DecodeError,
        >(vertices),
{
    let write = |v: Vertex| encode_vertex(v);
    let read = |row: Seq<Coordinate>| decode_vertex(row);
    lemma_decode_all_written(vertices, write, read);
    assert(Seq::new(vertices.len(), |i: int| encode_vertex(vertices[i])) =~= Seq::new(
        vertices.len(),
        |i: int| write(vertices[i]),
    ));
    lemma_interned_all_distinct(vertices);
}

/// Writing a model as a document and reading the document gives the model
/// back: the same objects under the same names in the same order, the same
/// transform, and the same vertices at the same indices.
pub proof fn lemma_round_trip(model: ModelView)
    requires
        unique_names(model.objects),
        distinct(model.vertices),
    ensures
        decode_model(encode_model(model)) == Ok::<ModelView, DecodeError>(model),
{
    lemma_objects_round_trip(model.objects);
    lemma_vertices_round_trip(model.vertices);
    let t = model.transform;
    assert(decode_transform(encode_transform(t)) == Ok::<CityModelTransform, DecodeError>(t));
}

} // verus!
