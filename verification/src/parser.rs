//! The interpreter of the events of a CityGML document.

use crate::error::ParseError;
use crate::geometry::{relief_geometry, relief_geometry_spec};
use crate::model::{
    upsert, CityModel, CityObject, CityObjectType, ModelView, ObjectView, TriangleIndices,
};
use crate::poslist::{parse, parse_spec};
use crate::registry::{interned_all, slot_of};
use crate::survey::{
    describes, lemma_described_indexed, lemma_model_describes_document, survey_of,
};
use crate::text::same_bytes;
use crate::vertex::Vertex;
use crate::xml::{
    document_signals, next_event, open_reader, pending_signals, reader_position, Signal,
    XmlEvent,
};
use vstd::prelude::*;
use vstd::string::StringSliceAdditionalSpecFns;

verus! {

/// The name of a position list element.
pub open spec fn position_list_tag() -> Seq<u8> {
    "gml:posList".spec_bytes()
}

/// The name of a relief feature element.
pub open spec fn relief_tag() -> Seq<u8> {
    "dem:TINRelief".spec_bytes()
}

/// The name under which a relief feature enters the model.
pub open spec fn ground_name() -> Seq<char> {
    "ground"@
}

/// What the interpreter holds between two events.
pub ghost struct StateView {
    /// The model so far.
    pub model: ModelView,
    /// Whether the reader stands inside a position list.
    pub collecting: bool,
    /// The relief feature inside which the reader stands.
    pub current: Option<ObjectView>,
    /// The triangles gathered since the relief feature began.
    pub triangles: Seq<TriangleIndices>,
}

impl StateView {
    /// The state before the first event.
    pub open spec fn initial() -> StateView {
        StateView {
            model: ModelView::empty(),
            collecting: false,
            current: None,
            triangles: Seq::empty(),
        }
    }
}

/// The triangle of the first three of `corners`, by the indices that they
/// are given when `corners` are interned from first to last.
pub open spec fn first_triangle(vertices: Seq<Vertex>, corners: Seq<Vertex>) -> TriangleIndices {
    TriangleIndices {
        a: slot_of(vertices, corners, 0) as usize,
        b: slot_of(vertices, corners, 1) as usize,
        c: slot_of(vertices, corners, 2) as usize,
    }
}

/// The state after the points of a position list: every point is
/// interned, and the first three make a triangle. Fewer than three points
/// are refused.
pub open spec fn after_points(state: StateView, corners: Seq<Vertex>) -> Result<
    StateView,
    ParseError,
> {
    if corners.len() < 3 {
        Err(ParseError::TooFewPoints)
    } else {
        Ok(
            StateView {
                model: ModelView {
                    vertices: interned_all(state.model.vertices, corners),
                    ..state.model
                },
                triangles: state.triangles.push(first_triangle(state.model.vertices, corners)),
                ..state
            },
        )
    }
}

/// The state after the text of a position list.
pub open spec fn after_text(state: StateView, text: Option<Seq<char>>) -> Result<
    StateView,
    ParseError,
> {
    match text {
        None => Err(ParseError::Text),
        Some(text) => match parse_spec(text) {
            Err(e) => Err(e),
            Ok(corners) => after_points(state, corners),
        },
    }
}

/// The state after the end tag of a relief feature.
pub open spec fn after_relief(state: StateView) -> StateView {
    let objects = match state.current {
        Some(object) => upsert(
            state.model.objects,
            ground_name(),
            ObjectView {
                kind: object.kind,
                geometry: seq![relief_geometry_spec(state.triangles)],
            },
        ),
        None => state.model.objects,
    };
    StateView {
        model: ModelView { objects, ..state.model },
        current: None,
        triangles: Seq::empty(),
        ..state
    }
}

/// The state after one event, or why the document is refused.
pub open spec fn step_spec(state: StateView, signal: Signal) -> Result<StateView, ParseError> {
    match signal {
        Signal::Start(name) => if name == position_list_tag() {
            Ok(StateView { collecting: true, ..state })
        } else if name == relief_tag() {
            Ok(
                StateView {
                    current: Some(
                        ObjectView { kind: CityObjectType::TINRelief, geometry: Seq::empty() },
                    ),
                    triangles: Seq::empty(),
                    ..state
                },
            )
        } else {
            Ok(state)
        },
        Signal::End(name) => if name == position_list_tag() {
            Ok(StateView { collecting: false, ..state })
        } else if name == relief_tag() {
            Ok(after_relief(state))
        } else {
            Ok(state)
        },
        Signal::Text(text) => if state.collecting {
            after_text(state, text)
        } else {
            Ok(state)
        },
        _ => Ok(state),
    }
}

/// The interpreter between two events.
#[derive(Debug)]
pub struct ParserState {
    /// The model so far.
    pub model: CityModel,
    /// Whether the reader stands inside a position list.
    pub collecting: bool,
    /// The relief feature inside which the reader stands.
    pub current: Option<CityObject>,
    /// The triangles gathered since the relief feature began.
    pub triangles: Vec<TriangleIndices>,
}

impl View for ParserState {
    type V = StateView;

    open spec fn view(&self) -> StateView {
        StateView {
            model: self.model@,
            collecting: self.collecting,
            current: match self.current {
                Some(object) => Some(object@),
                None => None,
            },
            triangles: self.triangles@,
        }
    }
}

impl ParserState {
    /// The model is well formed.
    pub open spec fn wf(&self) -> bool {
        self.model.wf()
    }

    /// The interpreter before the first event.
    pub fn new() -> (state: ParserState)
        ensures
            state.wf(),
            state@ == StateView::initial(),
    {
        ParserState {
            model: CityModel::empty(),
            collecting: false,
            current: None,
            triangles: Vec::new(),
        }
    }

    /// Takes the points of a position list: interns every point and adds
    /// the triangle of the first three. Fewer than three points are refused.
    pub fn add_triangle(self, corners: &Vec<Vertex>) -> (r: Result<ParserState, ParseError>)
        requires
            self.wf(),
        ensures
            match r {
                Ok(next) => next.wf() && after_points(self@, corners@) == Ok::<
                    StateView,
                    ParseError,
                >(next@),
                Err(e) => after_points(self@, corners@) == Err::<StateView, ParseError>(e),
            },
    {
        if corners.len() < 3 {
            return Err(ParseError::TooFewPoints);
        }
        let mut state = self;
        let mut indices = state.model.vertices.intern_all(corners);
        indices.truncate(3);
        let triangle = TriangleIndices::from_vec(indices);
        state.triangles.push(triangle);
        Ok(state)
    }

    /// Takes one event: the state after it, or why the document is
    /// refused.
    pub fn step(self, event: XmlEvent) -> (r: Result<ParserState, ParseError>)
        requires
            self.wf(),
        ensures
            match r {
                Ok(next) => next.wf() && step_spec(self@, event@) == Ok::<StateView, ParseError>(
                    next@,
                ),
                Err(e) => step_spec(self@, event@) == Err::<StateView, ParseError>(e),
            },
    {
        let mut state = self;
        match event {
            XmlEvent::Start(name) => {
                if same_bytes(name.as_slice(), "gml:posList".as_bytes()) {
                    state.collecting = true;
                } else if same_bytes(name.as_slice(), "dem:TINRelief".as_bytes()) {
                    state.current = Some(CityObject::new(CityObjectType::TINRelief));
                    state.triangles = Vec::new();
                }
                Ok(state)
            },
            XmlEvent::End(name) => {
                if same_bytes(name.as_slice(), "gml:posList".as_bytes()) {
                    state.collecting = false;
                } else if same_bytes(name.as_slice(), "dem:TINRelief".as_bytes()) {
                    let ParserState { mut model, collecting, current, triangles } = state;
                    match current {
                        Some(mut object) => {
                            let mut geometry = Vec::new();
                            geometry.push(relief_geometry(triangles));
                            object.geometry = geometry;
                            assert(object@.geometry =~= seq![relief_geometry_spec(triangles@)]);
                            model.objects.insert(String::from_str("ground"), object);
                        },
                        None => {},
                    }
                    state = ParserState { model, collecting, current: None, triangles: Vec::new() };
                }
                Ok(state)
            },
            XmlEvent::Text(text) => {
                if !state.collecting {
                    return Ok(state);
                }
                match text {
                    None => Err(ParseError::Text),
                    Some(text) => match parse(text.as_str()) {
                        Err(e) => Err(e),
                        Ok(corners) => state.add_triangle(&corners),
                    },
                }
            },
            XmlEvent::Eof => Ok(state),
            XmlEvent::Other => Ok(state),
        }
    }
}

/// The model that a sequence of signals gives from `state` on, or why the
/// document is refused. Nothing behind the end of the document or a failure
/// is looked at.
pub open spec fn run(state: StateView, signals: Seq<Signal>) -> Result<ModelView, ParseError>
    decreases signals.len(),
{
    if signals.len() == 0 {
        Ok(state.model)
    } else {
        match signals[0] {
            Signal::Eof => Ok(state.model),
            Signal::Malformed(offset) => Err(ParseError::Markup { offset }),
            signal => match step_spec(state, signal) {
                Err(e) => Err(e),
                Ok(next) => run(next, signals.drop_first()),
            },
        }
    }
}

/// The model that a document with the given signals stands for, or why it
/// is refused.
pub open spec fn interpret(signals: Seq<Signal>) -> Result<ModelView, ParseError> {
    run(StateView::initial(), signals)
}

/// The signals of `events`, one by one.
pub open spec fn signals_of(events: Seq<XmlEvent>) -> Seq<Signal> {
    Seq::new(events.len(), |i: int| events[i]@)
}

impl CityModel {
    /// A model that a document stands for says what the document says in
    /// coordinates, and every index of its triangles is a position among its
    /// vertices.
    proof fn lemma_described(&self, signals: Seq<Signal>)
        requires
            interpret(signals) == Ok::<ModelView, ParseError>(self@),
        ensures
            describes(self@, survey_of(signals)),
            self@.indexed(),
    {
        self.vertices.lemma_countable();
        lemma_model_describes_document(signals);
        lemma_described_indexed(self@, survey_of(signals));
    }

    /// Interprets the events of a document that was read before: the model
    /// that they stand for, or why the document is refused.
    pub fn from_events(events: Vec<XmlEvent>) -> (r: Result<CityModel, ParseError>)
        ensures
            match r {
                Ok(model) => {
                    &&& model.wf()
                    &&& interpret(signals_of(events@)) == Ok::<ModelView, ParseError>(model@)
                    &&& describes(model@, survey_of(signals_of(events@)))
                    &&& model@.indexed()
                },
                Err(e) => interpret(signals_of(events@)) == Err::<ModelView, ParseError>(e),
            },
    {
        let mut state = ParserState::new();
        let ghost all = signals_of(events@);
        let mut rest = events;
        let mut i: usize = 0;
        let count = rest.len();
        assert(all.skip(0) =~= all);
        while i < count
            invariant
                i <= count,
                count == rest@.len(),
                all == signals_of(events@),
                all.len() == count,
                forall|j: int| i <= j < count ==> all[j] == (#[trigger] rest@[j])@,
                state.wf(),
                run(state@, all.skip(i as int)) == interpret(all),
            decreases count - i,
        {
            let mut event = XmlEvent::Other;
            std::mem::swap(&mut event, &mut rest[i]);
            proof {
                assert(all.skip(i as int)[0] == event@);
                assert(all.skip(i as int).drop_first() =~= all.skip(i + 1));
            }
            if let XmlEvent::Eof = event {
                proof {
                    state.model.lemma_described(all);
                }
                return Ok(state.model);
            }
            match state.step(event) {
                Ok(next) => {
                    state = next;
                },
                Err(e) => {
                    return Err(e);
                },
            }
            i = i + 1;
        }
        proof {
            state.model.lemma_described(all);
        }
        Ok(state.model)
    }

    /// Reads a CityGML document: the model that it stands for, or why it is
    /// refused. Malformed markup is refused with the byte position at which
    /// the reader gave up. The model says what the document says in
    /// coordinates.
    pub fn from_xml(input: &[u8]) -> (r: Result<CityModel, ParseError>)
        ensures
            match r {
                Ok(model) => {
                    &&& model.wf()
                    &&& interpret(document_signals(input@)) == Ok::<ModelView, ParseError>(model@)
                    &&& describes(model@, survey_of(document_signals(input@)))
                    &&& model@.indexed()
                },
                Err(e) => interpret(document_signals(input@)) == Err::<ModelView, ParseError>(e),
            },
    {
        let mut reader = open_reader(input);
        let mut state = ParserState::new();
        loop
            invariant
                state.wf(),
                run(state@, pending_signals(reader)) == interpret(document_signals(input@)),
            decreases pending_signals(reader).len(),
        {
            match next_event(&mut reader) {
                Err(_) => {
                    let offset = reader_position(&reader);
                    return Err(ParseError::Markup { offset });
                },
                Ok(XmlEvent::Eof) => {
                    proof {
                        state.model.lemma_described(document_signals(input@));
                    }
                    return Ok(state.model);
                },
                Ok(event) => match state.step(event) {
                    Ok(next) => {
                        state = next;
                    },
                    Err(e) => {
                        return Err(e);
                    },
                },
            }
        }
    }
}

} // verus!
