//! The tags under which kinds and levels of detail stand in a document.

use crate::model::{CityObjectGeometryLOD, CityObjectGeometryType, CityObjectType};
use crate::text::same_text;
use vstd::prelude::*;

verus! {

impl CityObjectType {
    /// The tag under which the kind of a city object stands in a document.
    pub open spec fn tag_spec(self) -> Seq<char> {
        match self {
            CityObjectType::CityFurniture => "CityFurniture"@,
            CityObjectType::CityObjectGroup => "CityObjectGroup"@,
            CityObjectType::GenericCityObject => "GenericCityObject"@,
            CityObjectType::LandUse => "LandUse"@,
            CityObjectType::PlantCover => "PlantCover"@,
            CityObjectType::SolitaryVegetationObject => "SolitaryVegetationObject"@,
            CityObjectType::WaterBody => "WaterBody"@,
            CityObjectType::AuxiliaryTrafficArea => "AuxiliaryTrafficArea"@,
            CityObjectType::Railway => "Railway"@,
            CityObjectType::Road => "Road"@,
            CityObjectType::Track => "Track"@,
            CityObjectType::TrafficArea => "TrafficArea"@,
            CityObjectType::Tunnel => "Tunnel"@,
            CityObjectType::Bridge => "Bridge"@,
            CityObjectType::BridgeConstructionElement => "BridgeConstructionElement"@,
            CityObjectType::BridgeFurniture => "BridgeFurniture"@,
            CityObjectType::BridgeInstallation => "BridgeInstallation"@,
            CityObjectType::BridgePart => "BridgePart"@,
            CityObjectType::BridgeRoom => "BridgeRoom"@,
            CityObjectType::BridgeRoofSurface => "BridgeRoofSurface"@,
            CityObjectType::BridgeWallSurface => "BridgeWallSurface"@,
            CityObjectType::Building => "Building"@,
            CityObjectType::BuildingInstallation => "BuildingInstallation"@,
            CityObjectType::TINRelief => "TINRelief"@,
        }
    }

    /// The kind of a city object that stands under `tag` in a document.
    pub open spec fn of_tag(tag: Seq<char>) -> Option<CityObjectType> {
        if tag == "CityFurniture"@ {
            Some(CityObjectType::CityFurniture)
        } else if tag == "CityObjectGroup"@ {
            Some(CityObjectType::CityObjectGroup)
        } else if tag == "GenericCityObject"@ {
            Some(CityObjectType::GenericCityObject)
        } else if tag == "LandUse"@ {
            Some(CityObjectType::LandUse)
        } else if tag == "PlantCover"@ {
            Some(CityObjectType::PlantCover)
        } else if tag == "SolitaryVegetationObject"@ {
            Some(CityObjectType::SolitaryVegetationObject)
        } else if tag == "WaterBody"@ {
            Some(CityObjectType::WaterBody)
        } else if tag == "AuxiliaryTrafficArea"@ {
            Some(CityObjectType::AuxiliaryTrafficArea)
        } else if tag == "Railway"@ {
            Some(CityObjectType::Railway)
        } else if tag == "Road"@ {
            Some(CityObjectType::Road)
        } else if tag == "Track"@ {
            Some(CityObjectType::Track)
        } else if tag == "TrafficArea"@ {
            Some(CityObjectType::TrafficArea)
        } else if tag == "Tunnel"@ {
            Some(CityObjectType::Tunnel)
        } else if tag == "Bridge"@ {
            Some(CityObjectType::Bridge)
        } else if tag == "BridgeConstructionElement"@ {
            Some(CityObjectType::BridgeConstructionElement)
        } else if tag == "BridgeFurniture"@ {
            Some(CityObjectType::BridgeFurniture)
        } else if tag == "BridgeInstallation"@ {
            Some(CityObjectType::BridgeInstallation)
        } else if tag == "BridgePart"@ {
            Some(CityObjectType::BridgePart)
        } else if tag == "BridgeRoom"@ {
            Some(CityObjectType::BridgeRoom)
        } else if tag == "BridgeRoofSurface"@ {
            Some(CityObjectType::BridgeRoofSurface)
        } else if tag == "BridgeWallSurface"@ {
            Some(CityObjectType::BridgeWallSurface)
        } else if tag == "Building"@ {
            Some(CityObjectType::Building)
        } else if tag == "BuildingInstallation"@ {
            Some(CityObjectType::BuildingInstallation)
        } else if tag == "TINRelief"@ {
            Some(CityObjectType::TINRelief)
        } else {
            None
        }
    }

    /// The tag under which the kind of a city object stands in a document.
    pub fn tag(&self) -> (text: &'static str)
        ensures
            text@ == self.tag_spec(),
    {
        match self {
            CityObjectType::CityFurniture => "CityFurniture",
            CityObjectType::CityObjectGroup => "CityObjectGroup",
            CityObjectType::GenericCityObject => "GenericCityObject",
            CityObjectType::LandUse => "LandUse",
            CityObjectType::PlantCover => "PlantCover",
            CityObjectType::SolitaryVegetationObject => "SolitaryVegetationObject",
            CityObjectType::WaterBody => "WaterBody",
            CityObjectType::AuxiliaryTrafficArea => "AuxiliaryTrafficArea",
            CityObjectType::Railway => "Railway",
            CityObjectType::Road => "Road",
            CityObjectType::Track => "Track",
            CityObjectType::TrafficArea => "TrafficArea",
            CityObjectType::Tunnel => "Tunnel",
            CityObjectType::Bridge => "Bridge",
            CityObjectType::BridgeConstructionElement => "BridgeConstructionElement",
            CityObjectType::BridgeFurniture => "BridgeFurniture",
            CityObjectType::BridgeInstallation => "BridgeInstallation",
            CityObjectType::BridgePart => "BridgePart",
            CityObjectType::BridgeRoom => "BridgeRoom",
            CityObjectType::BridgeRoofSurface => "BridgeRoofSurface",
            CityObjectType::BridgeWallSurface => "BridgeWallSurface",
            CityObjectType::Building => "Building",
            CityObjectType::BuildingInstallation => "BuildingInstallation",
            CityObjectType::TINRelief => "TINRelief",
        }
    }

    /// Reads a tag: the kind of a city object that stands under it, or `None` where the
    /// tag is not one of the vocabulary.
    pub fn from_tag(tag: &str) -> (r: Option<CityObjectType>)
        ensures
            r == Self::of_tag(tag@),
    {
        if same_text(tag, "CityFurniture") {
            Some(CityObjectType::CityFurniture)
        } else if same_text(tag, "CityObjectGroup") {
            Some(CityObjectType::CityObjectGroup)
        } else if same_text(tag, "GenericCityObject") {
            Some(CityObjectType::GenericCityObject)
        } else if same_text(tag, "LandUse") {
            Some(CityObjectType::LandUse)
        } else if same_text(tag, "PlantCover") {
            Some(CityObjectType::PlantCover)
        } else if same_text(tag, "SolitaryVegetationObject") {
            Some(CityObjectType::SolitaryVegetationObject)
        } else if same_text(tag, "WaterBody") {
            Some(CityObjectType::WaterBody)
        } else if same_text(tag, "AuxiliaryTrafficArea") {
            Some(CityObjectType::AuxiliaryTrafficArea)
        } else if same_text(tag, "Railway") {
            Some(CityObjectType::Railway)
        } else if same_text(tag, "Road") {
            Some(CityObjectType::Road)
        } else if same_text(tag, "Track") {
            Some(CityObjectType::Track)
        } else if same_text(tag, "TrafficArea") {
            Some(CityObjectType::TrafficArea)
        } else if same_text(tag, "Tunnel") {
            Some(CityObjectType::Tunnel)
        } else if same_text(tag, "Bridge") {
            Some(CityObjectType::Bridge)
        } else if same_text(tag, "BridgeConstructionElement") {
            Some(CityObjectType::BridgeConstructionElement)
        } else if same_text(tag, "BridgeFurniture") {
            Some(CityObjectType::BridgeFurniture)
        } else if same_text(tag, "BridgeInstallation") {
            Some(CityObjectType::BridgeInstallation)
        } else if same_text(tag, "BridgePart") {
            Some(CityObjectType::BridgePart)
        } else if same_text(tag, "BridgeRoom") {
            Some(CityObjectType::BridgeRoom)
        } else if same_text(tag, "BridgeRoofSurface") {
            Some(CityObjectType::BridgeRoofSurface)
        } else if same_text(tag, "BridgeWallSurface") {
            Some(CityObjectType::BridgeWallSurface)
        } else if same_text(tag, "Building") {
            Some(CityObjectType::Building)
        } else if same_text(tag, "BuildingInstallation") {
            Some(CityObjectType::BuildingInstallation)
        } else if same_text(tag, "TINRelief") {
            Some(CityObjectType::TINRelief)
        } else {
            None
        }
    }
}

/// Reading the tag of a kind of a city object gives the kind of a city object back.
pub proof fn lemma_object_tag_round_trip(kind: CityObjectType)
    ensures
        CityObjectType::of_tag(kind.tag_spec()) == Some(kind),
{
    reveal_strlit("CityFurniture");
    reveal_strlit("CityObjectGroup");
    reveal_strlit("GenericCityObject");
    reveal_strlit("LandUse");
    reveal_strlit("PlantCover");
    reveal_strlit("SolitaryVegetationObject");
    reveal_strlit("WaterBody");
    reveal_strlit("AuxiliaryTrafficArea");
    reveal_strlit("Railway");
    reveal_strlit("Road");
    reveal_strlit("Track");
    reveal_strlit("TrafficArea");
    reveal_strlit("Tunnel");
    reveal_strlit("Bridge");
    reveal_strlit("BridgeConstructionElement");
    reveal_strlit("BridgeFurniture");
    reveal_strlit("BridgeInstallation");
    reveal_strlit("BridgePart");
    reveal_strlit("BridgeRoom");
    reveal_strlit("BridgeRoofSurface");
    reveal_strlit("BridgeWallSurface");
    reveal_strlit("Building");
    reveal_strlit("BuildingInstallation");
    reveal_strlit("TINRelief");
    assert("CityFurniture"@.len() == 13);
    assert("CityObjectGroup"@.len() == 15);
    assert("CityObjectGroup"@[0] == 'C');
    assert("GenericCityObject"@.len() == 17);
    assert("GenericCityObject"@[0] == 'G');
    assert("LandUse"@.len() == 7);
    assert("LandUse"@[0] == 'L');
    assert("PlantCover"@.len() == 10);
    assert("PlantCover"@[0] == 'P');
    assert("SolitaryVegetationObject"@.len() == 24);
    assert("WaterBody"@.len() == 9);
    assert("WaterBody"@[0] == 'W');
    assert("AuxiliaryTrafficArea"@.len() == 20);
    assert("AuxiliaryTrafficArea"@[0] == 'A');
    assert("Railway"@.len() == 7);
    assert("Railway"@[0] == 'R');
    assert("Road"@.len() == 4);
    assert("Track"@.len() == 5);
    assert("TrafficArea"@.len() == 11);
    assert("Tunnel"@.len() == 6);
    assert("Tunnel"@[0] == 'T');
    assert("Bridge"@.len() == 6);
    assert("Bridge"@[0] == 'B');
    assert("BridgeConstructionElement"@.len() == 25);
    assert("BridgeFurniture"@.len() == 15);
    assert("BridgeFurniture"@[0] == 'B');
    assert("BridgeInstallation"@.len() == 18);
    assert("BridgePart"@.len() == 10);
    assert("BridgePart"@[0] == 'B');
    assert("BridgePart"@[6] == 'P');
    assert("BridgeRoom"@.len() == 10);
    assert("BridgeRoom"@[0] == 'B');
    assert("BridgeRoom"@[6] == 'R');
    assert("BridgeRoofSurface"@.len() == 17);
    assert("BridgeRoofSurface"@[0] == 'B');
    assert("BridgeRoofSurface"@[6] == 'R');
    assert("BridgeWallSurface"@.len() == 17);
    assert("BridgeWallSurface"@[0] == 'B');
    assert("BridgeWallSurface"@[6] == 'W');
    assert("Building"@.len() == 8);
    assert("BuildingInstallation"@.len() == 20);
    assert("BuildingInstallation"@[0] == 'B');
    assert("TINRelief"@.len() == 9);
    assert("TINRelief"@[0] == 'T');
}
impl CityObjectGeometryType {
    /// The tag under which the kind of a geometry stands in a document.
    pub open spec fn tag_spec(self) -> Seq<char> {
        match self {
            CityObjectGeometryType::CompositeSolid => "CompositeSolid"@,
            CityObjectGeometryType::MultiSolid => "MultiSolid"@,
            CityObjectGeometryType::MultiCurve => "MultiCurve"@,
            CityObjectGeometryType::MultiPoint => "MultiPoint"@,
            CityObjectGeometryType::MultiSolidCoverage => "MultiSolidCoverage"@,
            CityObjectGeometryType::MultiSurfaceCoverage => "MultiSurfaceCoverage"@,
            CityObjectGeometryType::MultiCurveCoverage => "MultiCurveCoverage"@,
            CityObjectGeometryType::MultiPointCoverage => "MultiPointCoverage"@,
            CityObjectGeometryType::CompositeCurve => "CompositeCurve"@,
            CityObjectGeometryType::CompositePoint => "CompositePoint"@,
            CityObjectGeometryType::CompositeSurface => "CompositeSurface"@,
            CityObjectGeometryType::MultiSurface => "MultiSurface"@,
        }
    }

    /// The kind of a geometry that stands under `tag` in a document.
    pub open spec fn of_tag(tag: Seq<char>) -> Option<CityObjectGeometryType> {
        if tag == "CompositeSolid"@ {
            Some(CityObjectGeometryType::CompositeSolid)
        } else if tag == "MultiSolid"@ {
            Some(CityObjectGeometryType::MultiSolid)
        } else if tag == "MultiCurve"@ {
            Some(CityObjectGeometryType::MultiCurve)
        } else if tag == "MultiPoint"@ {
            Some(CityObjectGeometryType::MultiPoint)
        } else if tag == "MultiSolidCoverage"@ {
            Some(CityObjectGeometryType::MultiSolidCoverage)
        } else if tag == "MultiSurfaceCoverage"@ {
            Some(CityObjectGeometryType::MultiSurfaceCoverage)
        } else if tag == "MultiCurveCoverage"@ {
            Some(CityObjectGeometryType::MultiCurveCoverage)
        } else if tag == "MultiPointCoverage"@ {
            Some(CityObjectGeometryType::MultiPointCoverage)
        } else if tag == "CompositeCurve"@ {
            Some(CityObjectGeometryType::CompositeCurve)
        } else if tag == "CompositePoint"@ {
            Some(CityObjectGeometryType::CompositePoint)
        } else if tag == "CompositeSurface"@ {
            Some(CityObjectGeometryType::CompositeSurface)
        } else if tag == "MultiSurface"@ {
            Some(CityObjectGeometryType::MultiSurface)
        } else {
            None
        }
    }

    /// The tag under which the kind of a geometry stands in a document.
    pub fn tag(&self) -> (text: &'static str)
        ensures
            text@ == self.tag_spec(),
    {
        match self {
            CityObjectGeometryType::CompositeSolid => "CompositeSolid",
            CityObjectGeometryType::MultiSolid => "MultiSolid",
            CityObjectGeometryType::MultiCurve => "MultiCurve",
            CityObjectGeometryType::MultiPoint => "MultiPoint",
            CityObjectGeometryType::MultiSolidCoverage => "MultiSolidCoverage",
            CityObjectGeometryType::MultiSurfaceCoverage => "MultiSurfaceCoverage",
            CityObjectGeometryType::MultiCurveCoverage => "MultiCurveCoverage",
            CityObjectGeometryType::MultiPointCoverage => "MultiPointCoverage",
            CityObjectGeometryType::CompositeCurve => "CompositeCurve",
            CityObjectGeometryType::CompositePoint => "CompositePoint",
            CityObjectGeometryType::CompositeSurface => "CompositeSurface",
            CityObjectGeometryType::MultiSurface => "MultiSurface",
        }
    }

    /// Reads a tag: the kind of a geometry that stands under it, or `None` where the
    /// tag is not one of the vocabulary.
    pub fn from_tag(tag: &str) -> (r: Option<CityObjectGeometryType>)
        ensures
            r == Self::of_tag(tag@),
    {
        if same_text(tag, "CompositeSolid") {
            Some(CityObjectGeometryType::CompositeSolid)
        } else if same_text(tag, "MultiSolid") {
            Some(CityObjectGeometryType::MultiSolid)
        } else if same_text(tag, "MultiCurve") {
            Some(CityObjectGeometryType::MultiCurve)
        } else if same_text(tag, "MultiPoint") {
            Some(CityObjectGeometryType::MultiPoint)
        } else if same_text(tag, "MultiSolidCoverage") {
            Some(CityObjectGeometryType::MultiSolidCoverage)
        } else if same_text(tag, "MultiSurfaceCoverage") {
            Some(CityObjectGeometryType::MultiSurfaceCoverage)
        } else if same_text(tag, "MultiCurveCoverage") {
            Some(CityObjectGeometryType::MultiCurveCoverage)
        } else if same_text(tag, "MultiPointCoverage") {
            Some(CityObjectGeometryType::MultiPointCoverage)
        } else if same_text(tag, "CompositeCurve") {
            Some(CityObjectGeometryType::CompositeCurve)
        } else if same_text(tag, "CompositePoint") {
            Some(CityObjectGeometryType::CompositePoint)
        } else if same_text(tag, "CompositeSurface") {
            Some(CityObjectGeometryType::CompositeSurface)
        } else if same_text(tag, "MultiSurface") {
            Some(CityObjectGeometryType::MultiSurface)
        } else {
            None
        }
    }
}

/// Reading the tag of a kind of a geometry gives the kind of a geometry back.
pub proof fn lemma_geometry_tag_round_trip(kind: CityObjectGeometryType)
    ensures
        CityObjectGeometryType::of_tag(kind.tag_spec()) == Some(kind),
{
    reveal_strlit("CompositeSolid");
    reveal_strlit("MultiSolid");
    reveal_strlit("MultiCurve");
    reveal_strlit("MultiPoint");
    reveal_strlit("MultiSolidCoverage");
    reveal_strlit("MultiSurfaceCoverage");
    reveal_strlit("MultiCurveCoverage");
    reveal_strlit("MultiPointCoverage");
    reveal_strlit("CompositeCurve");
    reveal_strlit("CompositePoint");
    reveal_strlit("CompositeSurface");
    reveal_strlit("MultiSurface");
    assert("CompositeSolid"@.len() == 14);
    assert("CompositeSolid"@[9] == 'S');
    assert("MultiSolid"@.len() == 10);
    assert("MultiSolid"@[5] == 'S');
    assert("MultiCurve"@.len() == 10);
    assert("MultiCurve"@[5] == 'C');
    assert("MultiPoint"@.len() == 10);
    assert("MultiPoint"@[5] == 'P');
    assert("MultiSolidCoverage"@.len() == 18);
    assert("MultiSolidCoverage"@[5] == 'S');
    assert("MultiSurfaceCoverage"@.len() == 20);
    assert("MultiCurveCoverage"@.len() == 18);
    assert("MultiCurveCoverage"@[5] == 'C');
    assert("MultiPointCoverage"@.len() == 18);
    assert("MultiPointCoverage"@[5] == 'P');
    assert("CompositeCurve"@.len() == 14);
    assert("CompositeCurve"@[9] == 'C');
    assert("CompositePoint"@.len() == 14);
    assert("CompositePoint"@[9] == 'P');
    assert("CompositeSurface"@.len() == 16);
    assert("MultiSurface"@.len() == 12);
}
impl CityObjectGeometryLOD {
    /// The tag under which the level of detail stands in a document.
    pub open spec fn tag_spec(self) -> Seq<char> {
        match self {
            CityObjectGeometryLOD::One => "1"@,
            CityObjectGeometryLOD::Two => "2"@,
            CityObjectGeometryLOD::Three => "3"@,
        }
    }

    /// The level of detail that stands under `tag` in a document.
    pub open spec fn of_tag(tag: Seq<char>) -> Option<CityObjectGeometryLOD> {
        if tag == "1"@ {
            Some(CityObjectGeometryLOD::One)
        } else if tag == "2"@ {
            Some(CityObjectGeometryLOD::Two)
        } else if tag == "3"@ {
            Some(CityObjectGeometryLOD::Three)
        } else {
            None
        }
    }

    /// The tag under which the level of detail stands in a document.
    pub fn tag(&self) -> (text: &'static str)
        ensures
            text@ == self.tag_spec(),
    {
        match self {
            CityObjectGeometryLOD::One => "1",
            CityObjectGeometryLOD::Two => "2",
            CityObjectGeometryLOD::Three => "3",
        }
    }

    /// Reads a tag: the level of detail that stands under it, or `None` where the
    /// tag is not one of the vocabulary.
    pub fn from_tag(tag: &str) -> (r: Option<CityObjectGeometryLOD>)
        ensures
            r == Self::of_tag(tag@),
    {
        if same_text(tag, "1") {
            Some(CityObjectGeometryLOD::One)
        } else if same_text(tag, "2") {
            Some(CityObjectGeometryLOD::Two)
        } else if same_text(tag, "3") {
            Some(CityObjectGeometryLOD::Three)
        } else {
            None
        }
    }
}

/// Reading the tag of a level of detail gives the level of detail back.
pub proof fn lemma_lod_tag_round_trip(kind: CityObjectGeometryLOD)
    ensures
        CityObjectGeometryLOD::of_tag(kind.tag_spec()) == Some(kind),
{
    reveal_strlit("1");
    reveal_strlit("2");
    reveal_strlit("3");
    assert("1"@.len() == 1);
    assert("1"@[0] == '1');
    assert("2"@.len() == 1);
    assert("2"@[0] == '2');
    assert("3"@.len() == 1);
    assert("3"@[0] == '3');
}
} // verus!
