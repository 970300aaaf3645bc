//! Geometry kinds of vector features and how they are named in WKT.
use vstd::prelude::*;
use crate::text::str_equals;

verus! {

/// The kind of geometry a vector feature carries.
#[derive(Debug, PartialEq, Eq, Structural, Copy, Clone, Hash)]
pub enum GeometryType {
    /// The feature carries no geometry at all.
    NoGeometry,
    Point,
    Line,
    MultiLine,
    Polygon,
    MultiPolygon,
    Unknown,
}

/// The geometry type named by a WKT geometry keyword: exact, case-sensitive
/// matches of the five supported keywords, `Unknown` for anything else.
pub open spec fn geometry_type_of_name(name: Seq<char>) -> GeometryType {
    if name == "POINT"@ {
        GeometryType::Point
    } else if name == "POLYGON"@ {
        GeometryType::Polygon
    } else if name == "LINESTRING"@ {
        GeometryType::Line
    } else if name == "MULTILINESTRING"@ {
        GeometryType::MultiLine
    } else if name == "MULTIPOLYGON"@ {
        GeometryType::MultiPolygon
    } else {
        GeometryType::Unknown
    }
}

impl<'a> From<&'a str> for GeometryType {
    fn from(value: &'a str) -> (r: Self) {
        if str_equals(value, "POINT") {
            GeometryType::Point
        } else if str_equals(value, "POLYGON") {
            GeometryType::Polygon
        } else if str_equals(value, "LINESTRING") {
            GeometryType::Line
        } else if str_equals(value, "MULTILINESTRING") {
            GeometryType::MultiLine
        } else if str_equals(value, "MULTIPOLYGON") {
            GeometryType::MultiPolygon
        } else {
            GeometryType::Unknown
        }
    }
}

impl<'a> vstd::std_specs::convert::FromSpecImpl<&'a str> for GeometryType {
    open spec fn obeys_from_spec() -> bool {
        true
    }

    open spec fn from_spec(v: &'a str) -> GeometryType {
        geometry_type_of_name(v@)
    }
}

} // verus!
