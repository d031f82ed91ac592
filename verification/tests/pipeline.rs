use citygml_tin::decimal::Coordinate;
use citygml_tin::error::ParseError;
use citygml_tin::parser::ParserState;
use citygml_tin::model::{
    CityModel, CityModelTransform, CityObjectGeometryLOD, CityObjectGeometryType, CityObjectType,
    TriangleIndices,
};
use citygml_tin::vertex::Vertex;
use citygml_tin::xml::XmlEvent;

fn whole(n: i128) -> Coordinate {
    Coordinate { mantissa: n, scale: 0 }
}

fn point(x: i128, y: i128, z: i128) -> Vertex {
    Vertex { x: whole(x), y: whole(y), z: whole(z) }
}

fn relief(lists: &[&str]) -> String {
    let mut xml = String::from("<?xml version=\"1.0\"?><core:CityModel><dem:TINRelief>");
    for list in lists {
        xml.push_str("<gml:Triangle><gml:posList>");
        xml.push_str(list);
        xml.push_str("</gml:posList></gml:Triangle>");
    }
    xml.push_str("</dem:TINRelief></core:CityModel>");
    xml
}

fn triangles(model: &CityModel) -> Vec<Vec<usize>> {
    let ground = model.objects.get(&String::from("ground")).unwrap();
    assert_eq!(ground.geometry.len(), 1);
    let mut found = Vec::new();
    for boundary in &ground.geometry[0].boundaries {
        assert_eq!(boundary.0.len(), 1);
        found.push(boundary.0[0].to_vec());
    }
    found
}

#[test]
fn one_relief_feature_with_one_triangle() {
    let xml = relief(&["0 0 0 1 0 0 0 1 0"]);
    let model = CityModel::from_xml(xml.as_bytes()).unwrap();
    assert_eq!(
        model.vertices.to_ordered_sequence(),
        vec![point(0, 0, 0), point(1, 0, 0), point(0, 1, 0)]
    );
    assert_eq!(model.objects.len(), 1);
    assert_eq!(model.objects.name_at(0), "ground");
    let ground = model.objects.object_at(0);
    assert_eq!(ground.kind, CityObjectType::TINRelief);
    assert_eq!(ground.geometry.len(), 1);
    assert_eq!(ground.geometry[0].kind, CityObjectGeometryType::CompositeSurface);
    assert_eq!(ground.geometry[0].lod, CityObjectGeometryLOD::Two);
    assert_eq!(triangles(&model), vec![vec![0, 1, 2]]);
    assert_eq!(model.transform, CityModelTransform::identity());
}

#[test]
fn shared_point_is_held_once() {
    let xml = relief(&["0 0 0 1 0 0 0 1 0", "1 0 0 1 1 0 2 0 0"]);
    let model = CityModel::from_xml(xml.as_bytes()).unwrap();
    assert_eq!(
        model.vertices.to_ordered_sequence(),
        vec![point(0, 0, 0), point(1, 0, 0), point(0, 1, 0), point(1, 1, 0), point(2, 0, 0)]
    );
    assert_eq!(triangles(&model), vec![vec![0, 1, 2], vec![1, 3, 4]]);
}

#[test]
fn document_without_relief_feature_gives_empty_model() {
    let xml = "<core:CityModel><gml:name>nothing here</gml:name></core:CityModel>";
    let model = CityModel::from_xml(xml.as_bytes()).unwrap();
    assert_eq!(model.objects.len(), 0);
    assert_eq!(model.vertices.len(), 0);
    assert!(model.vertices.to_ordered_sequence().is_empty());
    let one = whole(1);
    let zero = whole(0);
    assert_eq!(model.transform.scale, Vertex { x: one, y: one, z: one });
    assert_eq!(model.transform.translate, Vertex { x: zero, y: zero, z: zero });
}

#[test]
fn empty_input_gives_empty_model() {
    let model = CityModel::from_xml(b"").unwrap();
    assert_eq!(model.objects.len(), 0);
    assert_eq!(model.vertices.len(), 0);
}

#[test]
fn malformed_number_is_refused() {
    let xml = relief(&["0 0 abc"]);
    assert_eq!(CityModel::from_xml(xml.as_bytes()).err(), Some(ParseError::Number));
    let xml = relief(&["0 0 0 1 0 0 0 1 0", "0 0 0 1 0 0 0 1 x"]);
    assert_eq!(CityModel::from_xml(xml.as_bytes()).err(), Some(ParseError::Number));
}

#[test]
fn malformed_number_behind_the_third_point_is_refused() {
    let xml = relief(&["0 0 0 1 0 0 0 1 0 7 7 seven"]);
    assert_eq!(CityModel::from_xml(xml.as_bytes()).err(), Some(ParseError::Number));
}

#[test]
fn numbers_that_do_not_come_in_threes_are_refused() {
    let xml = relief(&["0 0 0 1 0 0 0 1"]);
    assert_eq!(CityModel::from_xml(xml.as_bytes()).err(), Some(ParseError::IncompletePoint));
    let xml = relief(&["0 0 0 1 0 0 0 1 0 5"]);
    assert_eq!(CityModel::from_xml(xml.as_bytes()).err(), Some(ParseError::IncompletePoint));
}

#[test]
fn fewer_than_three_points_are_refused() {
    let xml = relief(&["0 0 0 1 0 0"]);
    assert_eq!(CityModel::from_xml(xml.as_bytes()).err(), Some(ParseError::TooFewPoints));
    let xml = relief(&["   "]);
    assert_eq!(CityModel::from_xml(xml.as_bytes()).err(), Some(ParseError::TooFewPoints));
}

#[test]
fn points_behind_the_third_are_interned_and_left_out_of_the_triangle() {
    let xml = relief(&["0 0 0 1 0 0 0 1 0 5 5 5 1 0 0", "5 5 5 0 0 0 6 6 6"]);
    let model = CityModel::from_xml(xml.as_bytes()).unwrap();
    assert_eq!(
        model.vertices.to_ordered_sequence(),
        vec![point(0, 0, 0), point(1, 0, 0), point(0, 1, 0), point(5, 5, 5), point(6, 6, 6)]
    );
    assert_eq!(triangles(&model), vec![vec![0, 1, 2], vec![3, 0, 4]]);
}

#[test]
fn equal_numbers_of_different_spelling_are_one_point() {
    let xml = relief(&["1.0 2 3 4 5 6 7 8 9", "1.00 2.0 3.000 4 5 6 7.5 8 9"]);
    let model = CityModel::from_xml(xml.as_bytes()).unwrap();
    let vertices = model.vertices.to_ordered_sequence();
    assert_eq!(vertices.len(), 4);
    assert_eq!(
        vertices[0],
        Vertex { x: Coordinate { mantissa: 10, scale: 1 }, y: whole(2), z: whole(3) }
    );
    assert_eq!(
        vertices[3],
        Vertex { x: Coordinate { mantissa: 75, scale: 1 }, y: whole(8), z: whole(9) }
    );
    assert_eq!(triangles(&model), vec![vec![0, 1, 2], vec![0, 1, 3]]);
}

#[test]
fn one_triangle_with_the_same_corner_thrice() {
    let xml = relief(&["4 4 4 4.0 4.00 4 4 4 4"]);
    let model = CityModel::from_xml(xml.as_bytes()).unwrap();
    assert_eq!(model.vertices.to_ordered_sequence(), vec![point(4, 4, 4)]);
    assert_eq!(triangles(&model), vec![vec![0, 0, 0]]);
}

#[test]
fn every_index_finds_its_point() {
    let lists = ["0 0 0 1 0 0 0 1 0", "0 1 0 1 0 0 1 1 0.5", "-3 2.25 1 0 0 0 1 1 0.50"];
    let xml = relief(&lists);
    let model = CityModel::from_xml(xml.as_bytes()).unwrap();
    let vertices = model.vertices.to_ordered_sequence();
    let found = triangles(&model);
    assert_eq!(found.len(), 3);
    let expected = [
        [point(0, 0, 0), point(1, 0, 0), point(0, 1, 0)],
        [
            point(0, 1, 0),
            point(1, 0, 0),
            Vertex { x: whole(1), y: whole(1), z: Coordinate { mantissa: 5, scale: 1 } },
        ],
        [
            Vertex { x: whole(-3), y: Coordinate { mantissa: 225, scale: 2 }, z: whole(1) },
            point(0, 0, 0),
            Vertex { x: whole(1), y: whole(1), z: Coordinate { mantissa: 5, scale: 1 } },
        ],
    ];
    for (triangle, corners) in found.iter().zip(expected.iter()) {
        for (index, corner) in triangle.iter().zip(corners.iter()) {
            assert!(*index < vertices.len());
            assert_eq!(vertices[*index].key(), corner.key());
        }
    }
    assert_eq!(vertices.len(), 5);
    for i in 0..vertices.len() {
        for j in 0..i {
            assert_ne!(vertices[i].key(), vertices[j].key());
        }
    }
}

#[test]
fn later_relief_feature_replaces_the_earlier() {
    let xml = "<m><dem:TINRelief><gml:posList>0 0 0 1 0 0 0 1 0</gml:posList>\
               <gml:posList>0 0 0 1 0 0 1 1 0</gml:posList></dem:TINRelief>\
               <dem:TINRelief><gml:posList>9 9 9 1 0 0 8 8 8</gml:posList></dem:TINRelief></m>";
    let model = CityModel::from_xml(xml.as_bytes()).unwrap();
    assert_eq!(model.objects.len(), 1);
    assert_eq!(model.objects.name_at(0), "ground");
    assert_eq!(triangles(&model), vec![vec![4, 1, 5]]);
    assert_eq!(model.vertices.len(), 6);
}

#[test]
fn position_list_outside_a_relief_feature_adds_no_object() {
    let xml = "<m><gml:posList>0 0 0 1 0 0 0 1 0</gml:posList></m>";
    let model = CityModel::from_xml(xml.as_bytes()).unwrap();
    assert_eq!(model.objects.len(), 0);
    assert_eq!(model.vertices.len(), 3);
}

#[test]
fn triangles_before_a_relief_feature_do_not_enter_it() {
    let xml = "<m><gml:posList>0 0 0 1 0 0 0 1 0</gml:posList>\
               <dem:TINRelief><gml:posList>1 1 1 1 0 0 2 2 2</gml:posList></dem:TINRelief></m>";
    let model = CityModel::from_xml(xml.as_bytes()).unwrap();
    assert_eq!(triangles(&model), vec![vec![3, 1, 4]]);
}

#[test]
fn end_of_a_relief_feature_that_never_began_adds_no_object() {
    let events = vec![
        XmlEvent::End(b"dem:TINRelief".to_vec()),
        XmlEvent::Eof,
    ];
    let model = CityModel::from_events(events).unwrap();
    assert_eq!(model.objects.len(), 0);
}

#[test]
fn relief_feature_without_triangles_has_an_empty_geometry() {
    let xml = "<dem:TINRelief></dem:TINRelief>";
    let model = CityModel::from_xml(xml.as_bytes()).unwrap();
    assert_eq!(model.objects.len(), 1);
    let ground = model.objects.object_at(0);
    assert_eq!(ground.geometry.len(), 1);
    assert!(ground.geometry[0].boundaries.is_empty());
    assert_eq!(ground.geometry[0].lod, CityObjectGeometryLOD::Two);
}

#[test]
fn text_outside_a_position_list_is_not_read() {
    let xml = "<dem:TINRelief><gml:name>not a number &bogus;</gml:name>\
               <gml:posList>0 0 0 1 0 0 0 1 0</gml:posList>trailing words</dem:TINRelief>";
    let model = CityModel::from_xml(xml.as_bytes()).unwrap();
    assert_eq!(model.vertices.len(), 3);
}

#[test]
fn self_closed_elements_are_not_read() {
    let xml = "<m><dem:TINRelief/><gml:posList/>1 2 3</m>";
    let model = CityModel::from_xml(xml.as_bytes()).unwrap();
    assert_eq!(model.objects.len(), 0);
    assert_eq!(model.vertices.len(), 0);
}

#[test]
fn escaped_text_is_unescaped_before_it_is_read() {
    let xml = relief(&["0 0 0&#32;1 0 0&#x9;0 1 0"]);
    let model = CityModel::from_xml(xml.as_bytes()).unwrap();
    assert_eq!(
        model.vertices.to_ordered_sequence(),
        vec![point(0, 0, 0), point(1, 0, 0), point(0, 1, 0)]
    );
}

#[test]
fn text_that_cannot_be_unescaped_is_refused() {
    let xml = relief(&["0 0 0 1 0 0 0 1 0 &bogus;"]);
    assert_eq!(CityModel::from_xml(xml.as_bytes()).err(), Some(ParseError::Text));
}

#[test]
fn text_that_is_not_utf8_is_refused() {
    let mut xml = b"<gml:posList>0 0 0 1 0 0 0 1 ".to_vec();
    xml.push(0xff);
    xml.extend_from_slice(b"</gml:posList>");
    assert_eq!(CityModel::from_xml(&xml).err(), Some(ParseError::Text));
}

#[test]
fn mismatched_end_tag_is_refused_with_its_position() {
    let xml = "<dem:TINRelief><gml:posList>0 0 0 1 0 0 0 1 0</gml:wrong></dem:TINRelief>";
    match CityModel::from_xml(xml.as_bytes()) {
        Err(ParseError::Markup { offset }) => assert_eq!(offset, 47),
        _ => panic!("the mismatched end tag was not refused"),
    }
}

#[test]
fn events_are_interpreted_as_the_document_is() {
    let events = vec![
        XmlEvent::Other,
        XmlEvent::Start(b"dem:TINRelief".to_vec()),
        XmlEvent::Start(b"gml:posList".to_vec()),
        XmlEvent::Text(Some(String::from("0 0 0 1 0 0 0 1 0"))),
        XmlEvent::End(b"gml:posList".to_vec()),
        XmlEvent::Text(Some(String::from("no numbers"))),
        XmlEvent::End(b"dem:TINRelief".to_vec()),
        XmlEvent::Eof,
        XmlEvent::Start(b"gml:posList".to_vec()),
        XmlEvent::Text(None),
    ];
    let model = CityModel::from_events(events).unwrap();
    assert_eq!(model.vertices.len(), 3);
    assert_eq!(triangles(&model), vec![vec![0, 1, 2]]);
}

#[test]
fn events_without_an_end_are_interpreted_to_the_last() {
    let events = vec![
        XmlEvent::Start(b"gml:posList".to_vec()),
        XmlEvent::Text(Some(String::from("0 0 0 1 0 0 0 1 0"))),
    ];
    let model = CityModel::from_events(events).unwrap();
    assert_eq!(model.vertices.len(), 3);
    let events = vec![XmlEvent::Start(b"gml:posList".to_vec()), XmlEvent::Text(None)];
    assert_eq!(CityModel::from_events(events).err(), Some(ParseError::Text));
}

#[test]
fn triangle_indices_from_vec() {
    let triangle = TriangleIndices::from_vec(vec![7, 8, 9]);
    assert_eq!(triangle, TriangleIndices { a: 7, b: 8, c: 9 });
    assert_eq!(triangle.to_vec(), vec![7, 8, 9]);
}

#[test]
fn parse_error_messages() {
    assert_eq!(ParseError::Markup { offset: 3 }.message(), "malformed markup");
    assert_eq!(ParseError::Text.message(), "unreadable position list text");
    assert_eq!(ParseError::Number.message(), "malformed number in position list");
    assert_eq!(ParseError::IncompletePoint.message(), "position list with an incomplete point");
    assert_eq!(ParseError::TooFewPoints.message(), "position list with fewer than three points");
}

#[test]
fn points_of_a_position_list_become_one_triangle() {
    let state = ParserState::new();
    let corners = vec![point(0, 0, 0), point(1, 0, 0), point(0, 0, 0), point(2, 2, 2)];
    let state = state.add_triangle(&corners).ok().unwrap();
    assert_eq!(state.triangles, vec![TriangleIndices { a: 0, b: 1, c: 0 }]);
    assert_eq!(
        state.model.vertices.to_ordered_sequence(),
        vec![point(0, 0, 0), point(1, 0, 0), point(2, 2, 2)]
    );
    let state = state.add_triangle(&vec![point(2, 2, 2), point(3, 3, 3), point(1, 0, 0)]).ok().unwrap();
    assert_eq!(
        state.triangles,
        vec![TriangleIndices { a: 0, b: 1, c: 0 }, TriangleIndices { a: 2, b: 3, c: 1 }]
    );
    assert_eq!(state.model.vertices.len(), 4);
    assert_eq!(state.model.objects.len(), 0);
    assert!(!state.collecting);
    assert!(state.current.is_none());
}

#[test]
fn fewer_than_three_points_make_no_triangle() {
    let two = vec![point(0, 0, 0), point(1, 0, 0)];
    assert_eq!(ParserState::new().add_triangle(&two).err(), Some(ParseError::TooFewPoints));
    assert_eq!(ParserState::new().add_triangle(&vec![]).err(), Some(ParseError::TooFewPoints));
}

#[test]
fn interpreter_takes_one_event_at_a_time() {
    let state = ParserState::new();
    let state = state.step(XmlEvent::Text(Some(String::from("not read")))).ok().unwrap();
    let state = state.step(XmlEvent::Start(b"dem:TINRelief".to_vec())).ok().unwrap();
    assert_eq!(state.current.as_ref().map(|object| object.kind), Some(CityObjectType::TINRelief));
    let state = state.step(XmlEvent::Start(b"gml:posList".to_vec())).ok().unwrap();
    assert!(state.collecting);
    let state = state.step(XmlEvent::Text(Some(String::from("1 2 3 4 5 6 7 8 9")))).ok().unwrap();
    assert_eq!(state.triangles, vec![TriangleIndices { a: 0, b: 1, c: 2 }]);
    let state = state.step(XmlEvent::End(b"gml:posList".to_vec())).ok().unwrap();
    assert!(!state.collecting);
    let state = state.step(XmlEvent::Start(b"gml:poslist".to_vec())).ok().unwrap();
    assert!(!state.collecting);
    let state = state.step(XmlEvent::End(b"dem:TINRelief".to_vec())).ok().unwrap();
    assert!(state.current.is_none());
    assert!(state.triangles.is_empty());
    assert_eq!(state.model.objects.len(), 1);
    let state = state.step(XmlEvent::Start(b"gml:posList".to_vec())).ok().unwrap();
    assert_eq!(state.step(XmlEvent::Text(None)).err(), Some(ParseError::Text));
}

#[test]
fn start_of_a_relief_feature_drops_the_triangles_gathered_before() {
    let state = ParserState::new();
    let state = state.add_triangle(&vec![point(0, 0, 0), point(1, 0, 0), point(0, 1, 0)]).ok().unwrap();
    assert_eq!(state.triangles.len(), 1);
    let state = state.step(XmlEvent::Start(b"dem:TINRelief".to_vec())).ok().unwrap();
    assert!(state.triangles.is_empty());
    assert_eq!(state.model.vertices.len(), 3);
}
