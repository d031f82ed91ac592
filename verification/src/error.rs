//! What can go wrong.

use vstd::prelude::*;

verus! {

/// Why a CityGML document could not be read.
#[derive(Clone, Copy, Debug, PartialEq, Eq, Structural)]
pub enum ParseError {
    /// The markup is malformed; `offset` is the byte position at which the
    /// reader gave up.
    Markup { offset: usize },
    /// The text of a position list cannot be decoded or unescaped.
    Text,
    /// A token of a position list is no decimal number.
    Number,
    /// The numbers of a position list do not come in threes.
    IncompletePoint,
    /// A position list holds fewer than three points.
    TooFewPoints,
}

impl ParseError {
    /// A message that names the failure.
    pub fn message(&self) -> (text: &'static str)
        ensures
            text@ == match *self {
                ParseError::Markup { .. } => "malformed markup"@,
                ParseError::Text => "unreadable position list text"@,
                ParseError::Number => "malformed number in position list"@,
                ParseError::IncompletePoint => "position list with an incomplete point"@,
                ParseError::TooFewPoints => "position list with fewer than three points"@,
            },
    {
        match self {
            ParseError::Markup { .. } => "malformed markup",
            ParseError::Text => "unreadable position list text",
            ParseError::Number => "malformed number in position list",
            ParseError::IncompletePoint => "position list with an incomplete point",
            ParseError::TooFewPoints => "position list with fewer than three points",
        }
    }
}

/// Why a document is no city model.
#[derive(Clone, Copy, Debug, PartialEq, Eq, Structural)]
pub enum DecodeError {
    /// The tag of a city object is not one of the vocabulary.
    ObjectType,
    /// The tag of a geometry is not one of the vocabulary.
    GeometryType,
    /// A level of detail is none of `"1"`, `"2"` and `"3"`.
    Lod,
    /// A triangle does not have three indices.
    Triangle,
    /// A vertex does not have three coordinates.
    Vertex,
    /// The scale or the translation does not have three coordinates.
    Transform,
}

impl DecodeError {
    /// A message that names the failure.
    pub fn message(&self) -> (text: &'static str)
        ensures
            text@ == match *self {
                DecodeError::ObjectType => "unknown city object type"@,
                DecodeError::GeometryType => "unknown geometry type"@,
                DecodeError::Lod => "Invalid CityObjectGeometryLOD"@,
                DecodeError::Triangle => "triangle without three indices"@,
                DecodeError::Vertex => "vertex without three coordinates"@,
                DecodeError::Transform => "transform without three coordinates"@,
            },
    {
        match self {
            DecodeError::ObjectType => "unknown city object type",
            DecodeError::GeometryType => "unknown geometry type",
            DecodeError::Lod => "Invalid CityObjectGeometryLOD",
            DecodeError::Triangle => "triangle without three indices",
            DecodeError::Vertex => "vertex without three coordinates",
            DecodeError::Transform => "transform without three coordinates",
        }
    }
}

} // verus!
