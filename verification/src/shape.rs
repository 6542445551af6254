//! The closed enumeration of shapefile shape types and its integer coding.

use vstd::prelude::*;

verus! {

/// The fourteen shape types of the shapefile format.
#[derive(Clone, Copy, Debug, PartialEq, Eq, Structural)]
pub enum ShapeType {
    NullShape,
    Point,
    PolyLine,
    Polygon,
    MultiPoint,
    PointZ,
    PolyLineZ,
    PolygonZ,
    MultiPointZ,
    PointM,
    PolyLineM,
    PolygonM,
    MultiPointM,
    MultiPatch,
}

/// The shape type denoted by integer code `value`, or `None` for a code the
/// format does not define.
pub open spec fn spec_shape_of_code(value: i32) -> Option<ShapeType> {
    if value == 0 {
        Some(ShapeType::NullShape)
    } else if value == 1 {
        Some(ShapeType::Point)
    } else if value == 3 {
        Some(ShapeType::PolyLine)
    } else if value == 5 {
        Some(ShapeType::Polygon)
    } else if value == 8 {
        Some(ShapeType::MultiPoint)
    } else if value == 11 {
        Some(ShapeType::PointZ)
    } else if value == 13 {
        Some(ShapeType::PolyLineZ)
    } else if value == 15 {
        Some(ShapeType::PolygonZ)
    } else if value == 18 {
        Some(ShapeType::MultiPointZ)
    } else if value == 21 {
        Some(ShapeType::PointM)
    } else if value == 23 {
        Some(ShapeType::PolyLineM)
    } else if value == 25 {
        Some(ShapeType::PolygonM)
    } else if value == 28 {
        Some(ShapeType::MultiPointM)
    } else if value == 31 {
        Some(ShapeType::MultiPatch)
    } else {
        None
    }
}

/// The integer code of shape type `t`.
pub open spec fn spec_code_of_shape(t: ShapeType) -> i32 {
    match t {
        ShapeType::NullShape => 0,
        ShapeType::Point => 1,
        ShapeType::PolyLine => 3,
        ShapeType::Polygon => 5,
        ShapeType::MultiPoint => 8,
        ShapeType::PointZ => 11,
        ShapeType::PolyLineZ => 13,
        ShapeType::PolygonZ => 15,
        ShapeType::MultiPointZ => 18,
        ShapeType::PointM => 21,
        ShapeType::PolyLineM => 23,
        ShapeType::PolygonM => 25,
        ShapeType::MultiPointM => 28,
        ShapeType::MultiPatch => 31,
    }
}

/// The two codings invert each other.
pub proof fn lemma_shape_code_roundtrip(t: ShapeType)
    ensures
        spec_shape_of_code(spec_code_of_shape(t)) == Some(t),
{
}

impl ShapeType {
    /// Maps a shape-type code to the shape type it denotes.  An integer the
    /// format does not define yields `None`; the decoders report it as an
    /// `UnknownShapeType` error.
    pub fn from_i32(value: i32) -> (r: Option<ShapeType>)
        ensures
            r == spec_shape_of_code(value),
    {
        match value {
            0 => Some(ShapeType::NullShape),
            1 => Some(ShapeType::Point),
            3 => Some(ShapeType::PolyLine),
            5 => Some(ShapeType::Polygon),
            8 => Some(ShapeType::MultiPoint),
            11 => Some(ShapeType::PointZ),
            13 => Some(ShapeType::PolyLineZ),
            15 => Some(ShapeType::PolygonZ),
            18 => Some(ShapeType::MultiPointZ),
            21 => Some(ShapeType::PointM),
            23 => Some(ShapeType::PolyLineM),
            25 => Some(ShapeType::PolygonM),
            28 => Some(ShapeType::MultiPointM),
            31 => Some(ShapeType::MultiPatch),
            _ => None,
        }
    }

    /// The integer code under which this shape type is stored.
    pub fn code(&self) -> (r: i32)
        ensures
            r == spec_code_of_shape(*self),
    {
        match self {
            ShapeType::NullShape => 0,
            ShapeType::Point => 1,
            ShapeType::PolyLine => 3,
            ShapeType::Polygon => 5,
            ShapeType::MultiPoint => 8,
            ShapeType::PointZ => 11,
            ShapeType::PolyLineZ => 13,
            ShapeType::PolygonZ => 15,
            ShapeType::MultiPointZ => 18,
            ShapeType::PointM => 21,
            ShapeType::PolyLineM => 23,
            ShapeType::PolygonM => 25,
            ShapeType::MultiPointM => 28,
            ShapeType::MultiPatch => 31,
        }
    }
}

} // verus!
