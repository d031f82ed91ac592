//! What a document says in coordinates, and that the model built from it
//! says the same.

use crate::document::encode_model;
use crate::geometry::relief_geometry_spec;
use crate::model::{
    lemma_find_name, CityModelTransform, CityObjectGeometryLOD, CityObjectGeometryType,
    CityObjectType, ModelView, ObjectView, TriangleIndices,
};
use crate::parser::{
    after_relief, after_text, first_triangle, ground_name, interpret, position_list_tag,
    relief_tag, run, step_spec, StateView,
};
use crate::poslist::parse_spec;
use crate::registry::{
    distinct, extends, holds, interned_all, keys, lemma_interned_all, slot_of,
};
use crate::vertex::{lemma_key_same_point, Vertex};
use crate::xml::Signal;
use vstd::prelude::*;

verus! {

/// What was read of a document so far, in coordinates.
pub ghost struct Survey {
    /// Whether the reader stands inside a position list.
    pub collecting: bool,
    /// Whether the reader stands inside a relief feature.
    pub inside: bool,
    /// The triangles since the relief feature began, each by the first
    /// three points of its position list.
    pub pending: Seq<Seq<Vertex>>,
    /// The triangles of the relief feature that ended last.
    pub ground: Option<Seq<Seq<Vertex>>>,
    /// Every point of every position list, in order.
    pub points: Seq<Vertex>,
}

impl Survey {
    /// The survey before the first event.
    pub open spec fn initial() -> Survey {
        Survey {
            collecting: false,
            inside: false,
            pending: Seq::empty(),
            ground: None,
            points: Seq::empty(),
        }
    }
}

/// The survey after one event.
pub open spec fn survey_step(survey: Survey, signal: Signal) -> Survey {
    match signal {
        Signal::Start(name) => if name == position_list_tag() {
            Survey { collecting: true, ..survey }
        } else if name == relief_tag() {
            Survey { inside: true, pending: Seq::empty(), ..survey }
        } else {
            survey
        },
        Signal::End(name) => if name == position_list_tag() {
            Survey { collecting: false, ..survey }
        } else if name == relief_tag() {
            Survey {
                ground: if survey.inside {
                    Some(survey.pending)
                } else {
                    survey.ground
                },
                inside: false,
                pending: Seq::empty(),
                ..survey
            }
        } else {
            survey
        },
        Signal::Text(Some(text)) => if survey.collecting {
            match parse_spec(text) {
                Ok(points) => if points.len() >= 3 {
                    Survey {
                        pending: survey.pending.push(points.take(3)),
                        points: survey.points + points,
                        ..survey
                    }
                } else {
                    survey
                },
                Err(_) => survey,
            }
        } else {
            survey
        },
        _ => survey,
    }
}

/// The survey after the events of a document, from `start` on. Nothing
/// behind the end of the document or a failure is looked at.
pub open spec fn survey_from(start: Survey, signals: Seq<Signal>) -> Survey
    decreases signals.len(),
{
    if signals.len() == 0 || signals[0].is_last() {
        start
    } else {
        survey_from(survey_step(start, signals[0]), signals.drop_first())
    }
}

/// The survey of a whole document.
pub open spec fn survey_of(signals: Seq<Signal>) -> Survey {
    survey_from(Survey::initial(), signals)
}

/// Whether the indices of `triangle` are positions in `vertices`, and the
/// vertices there are the three points `corners`.
pub open spec fn resolves(
    vertices: Seq<Vertex>,
    triangle: TriangleIndices,
    corners: Seq<Vertex>,
) -> bool {
    &&& triangle.within(vertices.len())
    &&& corners.len() == 3
    &&& vertices[triangle.a as int].same_point(corners[0])
    &&& vertices[triangle.b as int].same_point(corners[1])
    &&& vertices[triangle.c as int].same_point(corners[2])
}

/// Whether the only object of `model` is the relief feature `"ground"` with
/// one geometry, a composite surface of level of detail two, whose
/// boundaries are the given triangles, one each and in order.
pub open spec fn ground_is(model: ModelView, triangles: Seq<Seq<Vertex>>) -> bool {
    &&& model.objects.len() == 1
    &&& model.objects[0].0 == ground_name()
    &&& model.objects[0].1.kind == CityObjectType::TINRelief
    &&& model.objects[0].1.geometry.len() == 1
    &&& model.objects[0].1.geometry[0].kind == CityObjectGeometryType::CompositeSurface
    &&& model.objects[0].1.geometry[0].lod == CityObjectGeometryLOD::Two
    &&& model.objects[0].1.geometry[0].boundaries.len() == triangles.len()
    &&& forall|j: int|
        0 <= j < triangles.len() ==> {
            &&& (#[trigger] model.objects[0].1.geometry[0].boundaries[j]).len() == 1
            &&& resolves(
                model.vertices,
                model.objects[0].1.geometry[0].boundaries[j][0],
                triangles[j],
            )
        }
}

/// Whether `model` says what `survey` says: the transform is the identity;
/// no two vertices are the same point; the model holds no object where no
/// relief feature ended, and else only the one that ended last; every
/// point of a position list has its vertex, and every vertex is a point of
/// a position list.
pub open spec fn describes(model: ModelView, survey: Survey) -> bool {
    &&& model.transform == CityModelTransform::identity_spec()
    &&& distinct(model.vertices)
    &&& match survey.ground {
        None => model.objects.len() == 0,
        Some(triangles) => ground_is(model, triangles),
    }
    &&& forall|i: int|
        0 <= i < survey.points.len() ==> holds(model.vertices, #[trigger] survey.points[i])
    &&& forall|k: int|
        0 <= k < model.vertices.len() ==> survey.points.contains(#[trigger] model.vertices[k])
}

/// Whether the interpreter in `state` has read what `survey` says.
pub open spec fn agrees(state: StateView, survey: Survey) -> bool {
    &&& describes(state.model, survey)
    &&& state.collecting == survey.collecting
    &&& state.current == if survey.inside {
        Some(ObjectView { kind: CityObjectType::TINRelief, geometry: Seq::empty() })
    } else {
        None
    }
    &&& state.triangles.len() == survey.pending.len()
    &&& forall|j: int|
        0 <= j < survey.pending.len() ==> resolves(
            state.model.vertices,
            #[trigger] state.triangles[j],
            survey.pending[j],
        )
}

/// What is found through the indices stays found when entries are added
/// behind.
proof fn lemma_resolves_extends(
    longer: Seq<Vertex>,
    shorter: Seq<Vertex>,
    triangle: TriangleIndices,
    corners: Seq<Vertex>,
)
    requires
        extends(longer, shorter),
        resolves(shorter, triangle, corners),
    ensures
        resolves(longer, triangle, corners),
{
}

proof fn lemma_holds_extends(longer: Seq<Vertex>, shorter: Seq<Vertex>, v: Vertex)
    requires
        extends(longer, shorter),
        holds(shorter, v),
    ensures
        holds(longer, v),
{
    let k = choose|k: int| 0 <= k < shorter.len() && (#[trigger] shorter[k]).same_point(v);
    assert(longer[k].same_point(v));
}

/// The text of a position list keeps the interpreter and the survey in
/// agreement.
proof fn lemma_text_agrees(state: StateView, survey: Survey, text: Seq<char>)
    requires
        agrees(state, survey),
        state.collecting,
        after_text(state, Some(text)) is Ok,
        after_text(state, Some(text))->Ok_0.model.vertices.len() <= usize::MAX,
    ensures
        agrees(after_text(state, Some(text))->Ok_0, survey_step(survey, Signal::Text(Some(text)))),
{
    let next = after_text(state, Some(text))->Ok_0;
    let after = survey_step(survey, Signal::Text(Some(text)));
    let points = parse_spec(text)->Ok_0;
    let c = points.take(3);
    let v0 = state.model.vertices;
    let v1 = interned_all(v0, points);
    let triangle = first_triangle(v0, points);
    lemma_interned_all(v0, points);
    assert(next.model.vertices == v1);
    assert(resolves(v1, triangle, c)) by {
        assert(0 <= slot_of(v0, points, 0) < v1.len());
        assert(0 <= slot_of(v0, points, 1) < v1.len());
        assert(0 <= slot_of(v0, points, 2) < v1.len());
    }
    assert forall|j: int| 0 <= j < after.pending.len() implies resolves(
        v1,
        #[trigger] next.triangles[j],
        after.pending[j],
    ) by {
        if j < survey.pending.len() {
            lemma_resolves_extends(v1, v0, state.triangles[j], survey.pending[j]);
        }
    }
    match survey.ground {
        None => {},
        Some(triangles) => {
            assert forall|j: int| 0 <= j < triangles.len() implies {
                &&& (#[trigger] next.model.objects[0].1.geometry[0].boundaries[j]).len() == 1
                &&& resolves(v1, next.model.objects[0].1.geometry[0].boundaries[j][0], triangles[j])
            } by {
                lemma_resolves_extends(
                    v1,
                    v0,
                    state.model.objects[0].1.geometry[0].boundaries[j][0],
                    triangles[j],
                );
            }
        },
    }
    assert forall|i: int| 0 <= i < after.points.len() implies holds(
        v1,
        #[trigger] after.points[i],
    ) by {
        if i < survey.points.len() {
            lemma_holds_extends(v1, v0, survey.points[i]);
        } else {
            let n = i - survey.points.len();
            assert(after.points[i] == points[n]);
            assert(v1[slot_of(v0, points, n)].same_point(points[n]));
        }
    }
    assert forall|k: int| 0 <= k < v1.len() implies after.points.contains(#[trigger] v1[k]) by {
        if k < v0.len() {
            let i = choose|i: int| 0 <= i < survey.points.len() && survey.points[i] == v0[k];
            assert(after.points[i] == v1[k]);
        } else {
            assert(points.contains(v1[k]));
            let n = choose|n: int| 0 <= n < points.len() && points[n] == v1[k];
            assert(after.points[survey.points.len() + n] == v1[k]);
        }
    }
}

/// The end of a relief feature keeps the interpreter and the survey in
/// agreement.
proof fn lemma_relief_agrees(state: StateView, survey: Survey)
    requires
        agrees(state, survey),
        relief_tag() != position_list_tag(),
    ensures
        agrees(after_relief(state), survey_step(survey, Signal::End(relief_tag()))),
{
    let next = after_relief(state);
    let after = survey_step(survey, Signal::End(relief_tag()));
    lemma_find_name(state.model.objects, ground_name());
    if survey.inside {
        let geometry = relief_geometry_spec(state.triangles);
        assert(next.model.objects.len() == 1);
        assert(next.model.objects[0].0 == ground_name());
        assert(next.model.objects[0].1.geometry[0] == geometry);
        assert forall|j: int| 0 <= j < survey.pending.len() implies {
            &&& (#[trigger] geometry.boundaries[j]).len() == 1
            &&& resolves(next.model.vertices, geometry.boundaries[j][0], survey.pending[j])
        } by {
            assert(geometry.boundaries[j][0] == state.triangles[j]);
        }
    }
}

/// One event keeps the interpreter and the survey in agreement.
proof fn lemma_step_agrees(state: StateView, survey: Survey, signal: Signal)
    requires
        agrees(state, survey),
        step_spec(state, signal) is Ok,
        step_spec(state, signal)->Ok_0.model.vertices.len() <= usize::MAX,
    ensures
        agrees(step_spec(state, signal)->Ok_0, survey_step(survey, signal)),
{
    match signal {
        Signal::End(name) => {
            if name != position_list_tag() && name == relief_tag() {
                lemma_relief_agrees(state, survey);
            }
        },
        Signal::Text(text) => {
            if state.collecting {
                lemma_text_agrees(state, survey, text->0);
            }
        },
        _ => {},
    }
}

/// An event adds vertices behind those that are there, and takes none
/// away.
proof fn lemma_step_extends(state: StateView, signal: Signal)
    requires
        distinct(state.model.vertices),
        step_spec(state, signal) is Ok,
    ensures
        extends(step_spec(state, signal)->Ok_0.model.vertices, state.model.vertices),
        distinct(step_spec(state, signal)->Ok_0.model.vertices),
{
    if signal is Text && state.collecting {
        lemma_interned_all(state.model.vertices, parse_spec(signal->Text_0->0)->Ok_0);
    }
}

/// The vertices of the model begin with those that the interpreter held.
proof fn lemma_run_extends(state: StateView, signals: Seq<Signal>)
    requires
        distinct(state.model.vertices),
        run(state, signals) is Ok,
    ensures
        extends(run(state, signals)->Ok_0.vertices, state.model.vertices),
    decreases signals.len(),
{
    if signals.len() > 0 && !signals[0].is_last() {
        let next = step_spec(state, signals[0])->Ok_0;
        lemma_step_extends(state, signals[0]);
        lemma_run_extends(next, signals.drop_first());
    }
}

/// The events of a document keep the interpreter and the survey in
/// agreement up to the model.
proof fn lemma_run_describes(state: StateView, survey: Survey, signals: Seq<Signal>)
    requires
        agrees(state, survey),
        run(state, signals) is Ok,
        run(state, signals)->Ok_0.vertices.len() <= usize::MAX,
    ensures
        describes(run(state, signals)->Ok_0, survey_from(survey, signals)),
    decreases signals.len(),
{
    if signals.len() > 0 && !signals[0].is_last() {
        let next = step_spec(state, signals[0])->Ok_0;
        lemma_step_extends(state, signals[0]);
        lemma_run_extends(next, signals.drop_first());
        lemma_step_agrees(state, survey, signals[0]);
        lemma_run_describes(next, survey_step(survey, signals[0]), signals.drop_first());
    }
}

/// The model of a document says what the document says in coordinates: the
/// transform is the identity; where no relief feature ended the model has
/// no object, and else its only object is the relief feature `"ground"` that
/// ended last, with one boundary for each of its triangles, whose indices
/// are positions among the vertices at which the corners of that triangle
/// stand; no two vertices are the same point; every point of a position
/// list has its vertex and every vertex is a point of a position list. This
/// holds of every model whose vertices can be counted in `usize`, as those
/// of every registry can.
pub proof fn lemma_model_describes_document(signals: Seq<Signal>)
    requires
        interpret(signals) is Ok,
        interpret(signals)->Ok_0.vertices.len() <= usize::MAX,
    ensures
        describes(interpret(signals)->Ok_0, survey_of(signals)),
{
    lemma_run_describes(StateView::initial(), Survey::initial(), signals);
}

/// The number of distinct points among `points`.
pub open spec fn count_distinct(points: Seq<Vertex>) -> nat {
    keys(points).to_set().len()
}

/// A model that says what a survey says holds as many vertices as there
/// are distinct points among the points of the survey.
pub proof fn lemma_described_count(model: ModelView, survey: Survey)
    requires
        describes(model, survey),
    ensures
        model.vertices.len() == count_distinct(survey.points),
{
    let held = keys(model.vertices);
    let seen = keys(survey.points);
    assert forall|i: int, j: int|
        0 <= i < held.len() && 0 <= j < held.len() && i != j implies held[i] != held[j] by {
        lemma_key_same_point(model.vertices[i], model.vertices[j]);
        lemma_key_same_point(model.vertices[j], model.vertices[i]);
    }
    assert forall|key| held.to_set().contains(key) <==> seen.to_set().contains(key) by {
        if held.contains(key) {
            let k = choose|k: int| 0 <= k < held.len() && held[k] == key;
            let v = model.vertices[k];
            assert(survey.points.contains(v));
            let i = choose|i: int| 0 <= i < survey.points.len() && survey.points[i] == v;
            assert(seen[i] == key);
        }
        if seen.contains(key) {
            let i = choose|i: int| 0 <= i < seen.len() && seen[i] == key;
            let v = survey.points[i];
            assert(holds(model.vertices, v));
            let k = choose|k: int|
                0 <= k < model.vertices.len() && (#[trigger] model.vertices[k]).same_point(v);
            lemma_key_same_point(model.vertices[k], v);
            assert(held[k] == key);
        }
    }
    assert(held.to_set() =~= seen.to_set());
    held.unique_seq_to_set();
}

/// In a model that says what a survey says, every index of every triangle
/// is a position among the vertices.
pub proof fn lemma_described_indexed(model: ModelView, survey: Survey)
    requires
        describes(model, survey),
    ensures
        model.indexed(),
{
    if survey.ground is Some {
        let triangles = survey.ground->0;
        let geometry = model.objects[0].1.geometry[0];
        assert forall|b: int, t: int|
            0 <= b < geometry.boundaries.len() && 0 <= t < geometry.boundaries[b].len() implies (
        #[trigger] geometry.boundaries[b][t]).within(model.vertices.len()) by {
            assert(resolves(model.vertices, geometry.boundaries[b][0], triangles[b]));
        }
        assert(geometry.within(model.vertices.len()));
        assert(model.objects[0].1.within(model.vertices.len()));
    }
}

/// In a model that says what a survey says, every geometry has the level
/// of detail two, which stands in the document as `"2"`.
pub proof fn lemma_described_lod(model: ModelView, survey: Survey)
    requires
        describes(model, survey),
    ensures
        forall|i: int, g: int|
            0 <= i < model.objects.len() && 0 <= g < model.objects[i].1.geometry.len() ==> {
                &&& (#[trigger] model.objects[i].1.geometry[g]).lod == CityObjectGeometryLOD::Two
                &&& encode_model(model).objects[i].1.geometry[g].lod == "2"@
            },
{
}

/// Every vertex once: the model of a document holds no two vertices that
/// are the same point, and it holds as many vertices as there are distinct
/// points in the position lists of the document; so does the document of
/// the model.
pub proof fn lemma_vertices_deduplicated(signals: Seq<Signal>)
    requires
        interpret(signals) is Ok,
        interpret(signals)->Ok_0.vertices.len() <= usize::MAX,
    ensures
        distinct(interpret(signals)->Ok_0.vertices),
        interpret(signals)->Ok_0.vertices.len() == count_distinct(survey_of(signals).points),
        encode_model(interpret(signals)->Ok_0).vertices.len() == count_distinct(
            survey_of(signals).points,
        ),
{
    lemma_model_describes_document(signals);
    lemma_described_count(interpret(signals)->Ok_0, survey_of(signals));
}

/// Every index finds its point: in the model of a document each index of
/// each triangle is a position among the vertices, and the vertex there is
/// the point of the position list that gave the index.
pub proof fn lemma_indices_consistent(signals: Seq<Signal>)
    requires
        interpret(signals) is Ok,
        interpret(signals)->Ok_0.vertices.len() <= usize::MAX,
    ensures
        interpret(signals)->Ok_0.indexed(),
        survey_of(signals).ground is Some ==> ground_is(
            interpret(signals)->Ok_0,
            survey_of(signals).ground->0,
        ),
{
    lemma_model_describes_document(signals);
    lemma_described_indexed(interpret(signals)->Ok_0, survey_of(signals));
}

/// One ground object: the model of a document holds no object where no
/// relief feature ended; else it holds exactly one, under the name
/// `"ground"`, and that is the relief feature that ended last.
pub proof fn lemma_single_ground_object(signals: Seq<Signal>)
    requires
        interpret(signals) is Ok,
        interpret(signals)->Ok_0.vertices.len() <= usize::MAX,
    ensures
        match survey_of(signals).ground {
            None => interpret(signals)->Ok_0.objects.len() == 0,
            Some(triangles) => {
                &&& interpret(signals)->Ok_0.objects.len() == 1
                &&& interpret(signals)->Ok_0.objects[0].0 == ground_name()
                &&& ground_is(interpret(signals)->Ok_0, triangles)
            },
        },
{
    lemma_model_describes_document(signals);
}

/// Level of detail two: every geometry of the model of a document has the
/// level of detail two, and the document of the model holds the token `"2"`
/// for it.
pub proof fn lemma_level_of_detail_fixed(signals: Seq<Signal>)
    requires
        interpret(signals) is Ok,
        interpret(signals)->Ok_0.vertices.len() <= usize::MAX,
    ensures
        forall|i: int, g: int|
            0 <= i < interpret(signals)->Ok_0.objects.len() && 0 <= g < interpret(
                signals,
            )->Ok_0.objects[i].1.geometry.len() ==> {
                &&& (#[trigger] interpret(signals)->Ok_0.objects[i].1.geometry[g]).lod
                    == CityObjectGeometryLOD::Two
                &&& encode_model(interpret(signals)->Ok_0).objects[i].1.geometry[g].lod == "2"@
            },
{
    lemma_model_describes_document(signals);
    lemma_described_lod(interpret(signals)->Ok_0, survey_of(signals));
}

} // verus!
