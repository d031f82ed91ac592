//! Conversion of triangulated terrain from CityGML to CityJSON.
//!
//! The library reads the relief features of a CityGML document, interns the
//! corner points of their triangles in a registry that holds every point once,
//! and describes the resulting city model as a CityJSON document.

pub mod decimal;
pub mod document;
pub mod error;
pub mod geometry;
pub mod model;
pub mod parser;
pub mod poslist;
pub mod registry;
pub mod survey;
pub mod tags;
pub mod text;
pub mod vertex;
pub mod xml;
