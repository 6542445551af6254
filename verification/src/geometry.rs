//! Decoded geometry values and their mathematical views.
//!
//! Coordinates are IEEE 754 double bit patterns carried as `u64`: decoding
//! never interprets them numerically, so a record round-trips byte-exactly.
//! Each heap-holding type has a view whose sequences stand in the contracts.

use vstd::prelude::*;

verus! {

/// A planar point: the bit patterns of the x and y doubles.
#[derive(Clone, Copy, Debug, PartialEq, Eq, Structural)]
pub struct PointXY {
    pub x: u64,
    pub y: u64,
}

/// The full header bounding box: x/y/z/m ranges, as double bit patterns.
#[derive(Clone, Copy, Debug, PartialEq, Eq, Structural)]
pub struct BoundingBox {
    pub x_min: u64,
    pub y_min: u64,
    pub x_max: u64,
    pub y_max: u64,
    pub z_min: u64,
    pub z_max: u64,
    pub m_min: u64,
    pub m_max: u64,
}

/// The planar bounding box carried by each non-point record.
#[derive(Clone, Copy, Debug, PartialEq, Eq, Structural)]
pub struct BoundingBox2D {
    pub x_min: u64,
    pub y_min: u64,
    pub x_max: u64,
    pub y_max: u64,
}

/// A Z or M coordinate block: its declared range and one value per point.
#[derive(Clone, Debug, PartialEq, Eq)]
pub struct MeasureBlock {
    pub min: u64,
    pub max: u64,
    pub values: Vec<u64>,
}

/// View of a `MeasureBlock`.
pub struct MeasureBlockV {
    pub min: u64,
    pub max: u64,
    pub values: Seq<u64>,
}

impl View for MeasureBlock {
    type V = MeasureBlockV;

    open spec fn view(&self) -> MeasureBlockV {
        MeasureBlockV { min: self.min, max: self.max, values: self.values@ }
    }
}

/// A multipoint body: bounding box and point array.
#[derive(Clone, Debug, PartialEq, Eq)]
pub struct MultiPointGeom {
    pub bbox: BoundingBox2D,
    pub points: Vec<PointXY>,
}

/// View of a `MultiPointGeom`.
pub struct MultiPointGeomV {
    pub bbox: BoundingBox2D,
    pub points: Seq<PointXY>,
}

impl View for MultiPointGeom {
    type V = MultiPointGeomV;

    open spec fn view(&self) -> MultiPointGeomV {
        MultiPointGeomV { bbox: self.bbox, points: self.points@ }
    }
}

/// A parted body, shared by the polyline, polygon and multipatch families:
/// bounding box, part-start indices into the point array, and the points.
/// Each part is the contiguous run of points from its start index to the
/// next part's start (or the end of the array).
#[derive(Clone, Debug, PartialEq, Eq)]
pub struct PartedGeom {
    pub bbox: BoundingBox2D,
    pub parts: Vec<usize>,
    pub points: Vec<PointXY>,
}

/// View of a `PartedGeom`.
pub struct PartedGeomV {
    pub bbox: BoundingBox2D,
    pub parts: Seq<usize>,
    pub points: Seq<PointXY>,
}

impl View for PartedGeom {
    type V = PartedGeomV;

    open spec fn view(&self) -> PartedGeomV {
        PartedGeomV { bbox: self.bbox, parts: self.parts@, points: self.points@ }
    }
}

/// One decoded record body, tagged by its shape type.
///
/// The `m` field of a Z shape is `None` when the record's framed length
/// showed no trailing measure block: the format treats measures as optional
/// there, and "no measure" is not an error.
#[derive(Clone, Debug, PartialEq, Eq)]
pub enum Geometry {
    Null,
    Point(PointXY),
    PointM { point: PointXY, m: u64 },
    PointZ { point: PointXY, z: u64, m: Option<u64> },
    MultiPoint(MultiPointGeom),
    MultiPointM { base: MultiPointGeom, m: MeasureBlock },
    MultiPointZ { base: MultiPointGeom, z: MeasureBlock, m: Option<MeasureBlock> },
    PolyLine(PartedGeom),
    PolyLineM { base: PartedGeom, m: MeasureBlock },
    PolyLineZ { base: PartedGeom, z: MeasureBlock, m: Option<MeasureBlock> },
    Polygon(PartedGeom),
    PolygonM { base: PartedGeom, m: MeasureBlock },
    PolygonZ { base: PartedGeom, z: MeasureBlock, m: Option<MeasureBlock> },
    MultiPatch {
        base: PartedGeom,
        /// One raw part-type code per part (triangle strip, ring kinds, ...),
        /// kept uninterpreted so any value round-trips.
        part_types: Vec<i32>,
        z: MeasureBlock,
        m: Option<MeasureBlock>,
    },
}

/// View of a `Geometry`.
pub enum GeometryV {
    Null,
    Point(PointXY),
    PointM { point: PointXY, m: u64 },
    PointZ { point: PointXY, z: u64, m: Option<u64> },
    MultiPoint(MultiPointGeomV),
    MultiPointM { base: MultiPointGeomV, m: MeasureBlockV },
    MultiPointZ { base: MultiPointGeomV, z: MeasureBlockV, m: Option<MeasureBlockV> },
    PolyLine(PartedGeomV),
    PolyLineM { base: PartedGeomV, m: MeasureBlockV },
    PolyLineZ { base: PartedGeomV, z: MeasureBlockV, m: Option<MeasureBlockV> },
    Polygon(PartedGeomV),
    PolygonM { base: PartedGeomV, m: MeasureBlockV },
    PolygonZ { base: PartedGeomV, z: MeasureBlockV, m: Option<MeasureBlockV> },
    MultiPatch { base: PartedGeomV, part_types: Seq<i32>, z: MeasureBlockV, m: Option<MeasureBlockV> },
}

/// View of an optional measure block.
pub open spec fn opt_measure_view(m: Option<MeasureBlock>) -> Option<MeasureBlockV> {
    match m {
        Some(b) => Some(b@),
        None => None,
    }
}

impl View for Geometry {
    type V = GeometryV;

    open spec fn view(&self) -> GeometryV {
        match self {
            Geometry::Null => GeometryV::Null,
            Geometry::Point(p) => GeometryV::Point(*p),
            Geometry::PointM { point, m } => GeometryV::PointM { point: *point, m: *m },
            Geometry::PointZ { point, z, m } => GeometryV::PointZ {
                point: *point,
                z: *z,
                m: *m,
            },
            Geometry::MultiPoint(g) => GeometryV::MultiPoint(g@),
            Geometry::MultiPointM { base, m } => GeometryV::MultiPointM {
                base: base@,
                m: m@,
            },
            Geometry::MultiPointZ { base, z, m } => GeometryV::MultiPointZ {
                base: base@,
                z: z@,
                m: opt_measure_view(*m),
            },
            Geometry::PolyLine(g) => GeometryV::PolyLine(g@),
            Geometry::PolyLineM { base, m } => GeometryV::PolyLineM { base: base@, m: m@ },
            Geometry::PolyLineZ { base, z, m } => GeometryV::PolyLineZ {
                base: base@,
                z: z@,
                m: opt_measure_view(*m),
            },
            Geometry::Polygon(g) => GeometryV::Polygon(g@),
            Geometry::PolygonM { base, m } => GeometryV::PolygonM { base: base@, m: m@ },
            Geometry::PolygonZ { base, z, m } => GeometryV::PolygonZ {
                base: base@,
                z: z@,
                m: opt_measure_view(*m),
            },
            Geometry::MultiPatch { base, part_types, z, m } => GeometryV::MultiPatch {
                base: base@,
                part_types: part_types@,
                z: z@,
                m: opt_measure_view(*m),
            },
        }
    }
}

/// Part-start indices are in range for `num_points` points and non-decreasing.
pub open spec fn parts_wf(parts: Seq<usize>, num_points: int) -> bool {
    &&& forall|i: int| 0 <= i < parts.len() ==> (#[trigger] parts[i] as int) < num_points
    &&& forall|i: int| 0 <= i && i + 1 < parts.len() ==> #[trigger] parts[i] <= parts[i + 1]
}

/// A parted body is well formed: valid part indices.
pub open spec fn parted_wf(g: PartedGeomV) -> bool {
    parts_wf(g.parts, g.points.len() as int)
}

/// A measure block carries exactly one value per point.
pub open spec fn measure_wf(m: MeasureBlockV, num_points: int) -> bool {
    m.values.len() == num_points
}

/// An optional measure block, when present, carries one value per point.
pub open spec fn opt_measure_wf(m: Option<MeasureBlockV>, num_points: int) -> bool {
    match m {
        Some(b) => measure_wf(b, num_points),
        None => true,
    }
}

/// Well-formedness of a geometry value: every decoded value satisfies it,
/// and the encoder requires it.
pub open spec fn geom_wf(g: GeometryV) -> bool {
    match g {
        GeometryV::Null => true,
        GeometryV::Point(_) => true,
        GeometryV::PointM { .. } => true,
        GeometryV::PointZ { .. } => true,
        GeometryV::MultiPoint(_) => true,
        GeometryV::MultiPointM { base, m } => measure_wf(m, base.points.len() as int),
        GeometryV::MultiPointZ { base, z, m } => measure_wf(z, base.points.len() as int)
            && opt_measure_wf(m, base.points.len() as int),
        GeometryV::PolyLine(b) => parted_wf(b),
        GeometryV::PolyLineM { base, m } => parted_wf(base) && measure_wf(
            m,
            base.points.len() as int,
        ),
        GeometryV::PolyLineZ { base, z, m } => parted_wf(base) && measure_wf(
            z,
            base.points.len() as int,
        ) && opt_measure_wf(m, base.points.len() as int),
        GeometryV::Polygon(b) => parted_wf(b),
        GeometryV::PolygonM { base, m } => parted_wf(base) && measure_wf(
            m,
            base.points.len() as int,
        ),
        GeometryV::PolygonZ { base, z, m } => parted_wf(base) && measure_wf(
            z,
            base.points.len() as int,
        ) && opt_measure_wf(m, base.points.len() as int),
        GeometryV::MultiPatch { base, part_types, z, m } => parted_wf(base) && part_types.len()
            == base.parts.len() && measure_wf(z, base.points.len() as int) && opt_measure_wf(
            m,
            base.points.len() as int,
        ),
    }
}

/// The shape type a geometry value belongs to.
pub open spec fn spec_shape_of_geom(g: GeometryV) -> crate::shape::ShapeType {
    match g {
        GeometryV::Null => crate::shape::ShapeType::NullShape,
        GeometryV::Point(_) => crate::shape::ShapeType::Point,
        GeometryV::PointM { .. } => crate::shape::ShapeType::PointM,
        GeometryV::PointZ { .. } => crate::shape::ShapeType::PointZ,
        GeometryV::MultiPoint(_) => crate::shape::ShapeType::MultiPoint,
        GeometryV::MultiPointM { .. } => crate::shape::ShapeType::MultiPointM,
        GeometryV::MultiPointZ { .. } => crate::shape::ShapeType::MultiPointZ,
        GeometryV::PolyLine(_) => crate::shape::ShapeType::PolyLine,
        GeometryV::PolyLineM { .. } => crate::shape::ShapeType::PolyLineM,
        GeometryV::PolyLineZ { .. } => crate::shape::ShapeType::PolyLineZ,
        GeometryV::Polygon(_) => crate::shape::ShapeType::Polygon,
        GeometryV::PolygonM { .. } => crate::shape::ShapeType::PolygonM,
        GeometryV::PolygonZ { .. } => crate::shape::ShapeType::PolygonZ,
        GeometryV::MultiPatch { .. } => crate::shape::ShapeType::MultiPatch,
    }
}

impl Geometry {
    /// The shape type this geometry belongs to.
    pub fn shape_type(&self) -> (r: crate::shape::ShapeType)
        ensures
            r == spec_shape_of_geom(self@),
    {
        match self {
            Geometry::Null => crate::shape::ShapeType::NullShape,
            Geometry::Point(_) => crate::shape::ShapeType::Point,
            Geometry::PointM { .. } => crate::shape::ShapeType::PointM,
            Geometry::PointZ { .. } => crate::shape::ShapeType::PointZ,
            Geometry::MultiPoint(_) => crate::shape::ShapeType::MultiPoint,
            Geometry::MultiPointM { .. } => crate::shape::ShapeType::MultiPointM,
            Geometry::MultiPointZ { .. } => crate::shape::ShapeType::MultiPointZ,
            Geometry::PolyLine(_) => crate::shape::ShapeType::PolyLine,
            Geometry::PolyLineM { .. } => crate::shape::ShapeType::PolyLineM,
            Geometry::PolyLineZ { .. } => crate::shape::ShapeType::PolyLineZ,
            Geometry::Polygon(_) => crate::shape::ShapeType::Polygon,
            Geometry::PolygonM { .. } => crate::shape::ShapeType::PolygonM,
            Geometry::PolygonZ { .. } => crate::shape::ShapeType::PolygonZ,
            Geometry::MultiPatch { .. } => crate::shape::ShapeType::MultiPatch,
        }
    }
}

} // verus!
