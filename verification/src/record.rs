//! Record framing and the shape-specific body decoders.
//!
//! A record is an 8-byte big-endian framing prefix (record number, content
//! length in 16-bit words) followed by a little-endian body: a shape-type
//! code and that shape's field layout.  The framing fields alone decide how
//! far the stream advances, so decoding resynchronizes past a malformed
//! body.  This module defines the decoded result as a mathematical function
//! of the bytes and proves the executable decoder equal to it.

use vstd::prelude::*;
use crate::bytes::{be_i32_at, le_i32_at, le_u64_at, read_be_i32, read_le_i32, read_le_u64};
use crate::error::{Config, DecodeError};
use crate::geometry::{
    BoundingBox2D, Geometry, GeometryV, MeasureBlock, MeasureBlockV, MultiPointGeom,
    MultiPointGeomV, PartedGeom, PartedGeomV, PointXY,
};
use crate::shape::{spec_shape_of_code, ShapeType};

verus! {

// ----------------------------------------------------------------------------
// Field groups as functions of the bytes.
// ----------------------------------------------------------------------------

/// The `n` little-endian doubles-pairs (points) starting at byte offset
/// `off`: point `i` occupies bytes `off + 16*i .. off + 16*i + 16`.
pub open spec fn points_at(s: Seq<u8>, off: int, n: int) -> Seq<PointXY> {
    Seq::new(
        n as nat,
        |i: int| PointXY { x: le_u64_at(s, off + 16 * i), y: le_u64_at(s, off + 16 * i + 8) },
    )
}

/// The `n` little-endian 64-bit values starting at byte offset `off`.
pub open spec fn u64s_at(s: Seq<u8>, off: int, n: int) -> Seq<u64> {
    Seq::new(n as nat, |i: int| le_u64_at(s, off + 8 * i))
}

/// The `n` little-endian 32-bit values starting at byte offset `off`.
pub open spec fn i32s_at(s: Seq<u8>, off: int, n: int) -> Seq<i32> {
    Seq::new(n as nat, |i: int| le_i32_at(s, off + 4 * i))
}

/// The part-start array at `off`, reinterpreted as indices.  Used only
/// after `raw_parts_ok` has established every raw value non-negative.
pub open spec fn parts_at(s: Seq<u8>, off: int, n: int) -> Seq<usize> {
    Seq::new(n as nat, |i: int| le_i32_at(s, off + 4 * i) as usize)
}

/// The planar bounding box at byte offset `off`: x_min, y_min, x_max, y_max.
pub open spec fn bbox2_at(s: Seq<u8>, off: int) -> BoundingBox2D {
    BoundingBox2D {
        x_min: le_u64_at(s, off),
        y_min: le_u64_at(s, off + 8),
        x_max: le_u64_at(s, off + 16),
        y_max: le_u64_at(s, off + 24),
    }
}

/// The measure (or Z) block at byte offset `off`: declared minimum and
/// maximum, then `n` values, one per point.
pub open spec fn measure_at(s: Seq<u8>, off: int, n: int) -> MeasureBlockV {
    MeasureBlockV {
        min: le_u64_at(s, off),
        max: le_u64_at(s, off + 8),
        values: u64s_at(s, off + 16, n),
    }
}

/// The raw part-start values are valid for `n` points: each in `0 .. n` and
/// the sequence non-decreasing.
pub open spec fn raw_parts_ok(raw: Seq<i32>, n: int) -> bool {
    &&& forall|i: int| 0 <= i < raw.len() ==> 0 <= #[trigger] raw[i] && (raw[i] as int) < n
    &&& forall|i: int| 0 <= i && i + 1 < raw.len() ==> #[trigger] raw[i] <= raw[i + 1]
}

// ----------------------------------------------------------------------------
// Body layouts.
// ----------------------------------------------------------------------------

/// Which trailing coordinate blocks a shape variant carries after its base
/// layout: none, a measure block, or a Z block followed by an optional
/// measure block.
#[derive(Clone, Copy, Debug, PartialEq, Eq, Structural)]
pub enum BlockKind {
    Plain,
    WithM,
    WithZ,
}

/// A decoded multipoint-family body before it is wrapped in its `Geometry`
/// constructor.
pub struct MultiPointParts {
    pub base: MultiPointGeomV,
    pub z: Option<MeasureBlockV>,
    pub m: Option<MeasureBlockV>,
}

/// A decoded parted-family body (polyline, polygon, multipatch) before it
/// is wrapped in its `Geometry` constructor.
pub struct PartedParts {
    pub base: PartedGeomV,
    pub part_types: Seq<i32>,
    pub z: Option<MeasureBlockV>,
    pub m: Option<MeasureBlockV>,
}

/// Byte count of the trailing blocks that `declared` must accommodate, low
/// and high option: a `WithZ` body may end after the Z block (no measures)
/// or carry a measure block as well; the other kinds have one valid size.
pub open spec fn blocks_needed_lo(blocks: BlockKind, n: int) -> int {
    match blocks {
        BlockKind::Plain => 0,
        BlockKind::WithM => 16 + 8 * n,
        BlockKind::WithZ => 16 + 8 * n,
    }
}

pub open spec fn blocks_needed_hi(blocks: BlockKind, n: int) -> int {
    match blocks {
        BlockKind::Plain => 0,
        BlockKind::WithM => 16 + 8 * n,
        BlockKind::WithZ => 2 * (16 + 8 * n),
    }
}

/// The decoded trailing blocks of a body whose base ends at `base_end`,
/// given that `declared` passed the framing check.
pub open spec fn spec_blocks_at(
    s: Seq<u8>,
    base_end: int,
    n: int,
    blocks: BlockKind,
    declared: int,
    base_needed: int,
) -> (Option<MeasureBlockV>, Option<MeasureBlockV>) {
    match blocks {
        BlockKind::Plain => (None, None),
        BlockKind::WithM => (None, Some(measure_at(s, base_end, n))),
        BlockKind::WithZ => (
            Some(measure_at(s, base_end, n)),
            if declared == base_needed + blocks_needed_hi(BlockKind::WithZ, n) {
                Some(measure_at(s, base_end + 16 + 8 * n, n))
            } else {
                None
            },
        ),
    }
}

/// What decoding a multipoint-family body yields.  `c0` is the offset of
/// the record's shape-type code, `declared` the framed content byte count,
/// `avail` how many of those bytes the input actually holds.
pub open spec fn spec_decode_multipoint(
    s: Seq<u8>,
    c0: int,
    declared: int,
    avail: int,
    blocks: BlockKind,
    cfg: Config,
) -> Result<MultiPointParts, DecodeError> {
    if declared < 40 {
        Err(DecodeError::FramingMismatch)
    } else if avail < 40 {
        Err(DecodeError::TruncatedInput)
    } else {
        let num_points = le_i32_at(s, c0 + 36);
        if num_points < 0 || num_points as int > cfg.max_points as int {
            Err(DecodeError::LimitExceeded)
        } else {
            let n = num_points as int;
            let base_needed = 40 + 16 * n;
            if declared != base_needed + blocks_needed_lo(blocks, n) && declared != base_needed
                + blocks_needed_hi(blocks, n) {
                Err(DecodeError::FramingMismatch)
            } else if avail < declared {
                Err(DecodeError::TruncatedInput)
            } else {
                let base = MultiPointGeomV {
                    bbox: bbox2_at(s, c0 + 4),
                    points: points_at(s, c0 + 40, n),
                };
                let (z, m) = spec_blocks_at(s, c0 + base_needed, n, blocks, declared, base_needed);
                Ok(MultiPointParts { base, z, m })
            }
        }
    }
}

/// What decoding a parted-family body yields.  `with_types` is true for
/// multipatch, whose part-type array stands between the part-start array
/// and the points.
pub open spec fn spec_decode_parted(
    s: Seq<u8>,
    c0: int,
    declared: int,
    avail: int,
    with_types: bool,
    blocks: BlockKind,
    cfg: Config,
) -> Result<PartedParts, DecodeError> {
    if declared < 44 {
        Err(DecodeError::FramingMismatch)
    } else if avail < 44 {
        Err(DecodeError::TruncatedInput)
    } else {
        let num_parts = le_i32_at(s, c0 + 36);
        let num_points = le_i32_at(s, c0 + 40);
        if num_parts < 0 || num_parts as int > cfg.max_parts as int || num_points < 0
            || num_points as int > cfg.max_points as int {
            Err(DecodeError::LimitExceeded)
        } else {
            let np = num_parts as int;
            let n = num_points as int;
            let types_len = if with_types {
                4 * np
            } else {
                0
            };
            let base_needed = 44 + 4 * np + types_len + 16 * n;
            if declared != base_needed + blocks_needed_lo(blocks, n) && declared != base_needed
                + blocks_needed_hi(blocks, n) {
                Err(DecodeError::FramingMismatch)
            } else if avail < declared {
                Err(DecodeError::TruncatedInput)
            } else if !raw_parts_ok(i32s_at(s, c0 + 44, np), n) {
                Err(DecodeError::InvalidPartIndex)
            } else {
                let types_off = c0 + 44 + 4 * np;
                let pts_off = types_off + types_len;
                let base = PartedGeomV {
                    bbox: bbox2_at(s, c0 + 4),
                    parts: parts_at(s, c0 + 44, np),
                    points: points_at(s, pts_off, n),
                };
                let part_types = if with_types {
                    i32s_at(s, types_off, np)
                } else {
                    Seq::<i32>::empty()
                };
                let (z, m) = spec_blocks_at(s, c0 + base_needed, n, blocks, declared, base_needed);
                Ok(PartedParts { base, part_types, z, m })
            }
        }
    }
}

/// What decoding a record body of shape `st` yields.
pub open spec fn spec_decode_body(
    s: Seq<u8>,
    c0: int,
    declared: int,
    avail: int,
    st: ShapeType,
    cfg: Config,
) -> Result<GeometryV, DecodeError> {
    match st {
        ShapeType::NullShape => if declared != 4 {
            Err(DecodeError::FramingMismatch)
        } else {
            Ok(GeometryV::Null)
        },
        ShapeType::Point => if declared != 20 {
            Err(DecodeError::FramingMismatch)
        } else if avail < 20 {
            Err(DecodeError::TruncatedInput)
        } else {
            Ok(GeometryV::Point(PointXY { x: le_u64_at(s, c0 + 4), y: le_u64_at(s, c0 + 12) }))
        },
        ShapeType::PointM => if declared != 28 {
            Err(DecodeError::FramingMismatch)
        } else if avail < 28 {
            Err(DecodeError::TruncatedInput)
        } else {
            Ok(
                GeometryV::PointM {
                    point: PointXY { x: le_u64_at(s, c0 + 4), y: le_u64_at(s, c0 + 12) },
                    m: le_u64_at(s, c0 + 20),
                },
            )
        },
        ShapeType::PointZ => if declared != 28 && declared != 36 {
            Err(DecodeError::FramingMismatch)
        } else if avail < declared {
            Err(DecodeError::TruncatedInput)
        } else {
            Ok(
                GeometryV::PointZ {
                    point: PointXY { x: le_u64_at(s, c0 + 4), y: le_u64_at(s, c0 + 12) },
                    z: le_u64_at(s, c0 + 20),
                    m: if declared == 36 {
                        Some(le_u64_at(s, c0 + 28))
                    } else {
                        None
                    },
                },
            )
        },
        ShapeType::MultiPoint => match spec_decode_multipoint(
            s,
            c0,
            declared,
            avail,
            BlockKind::Plain,
            cfg,
        ) {
            Ok(p) => Ok(GeometryV::MultiPoint(p.base)),
            Err(e) => Err(e),
        },
        ShapeType::MultiPointM => match spec_decode_multipoint(
            s,
            c0,
            declared,
            avail,
            BlockKind::WithM,
            cfg,
        ) {
            Ok(p) => Ok(GeometryV::MultiPointM { base: p.base, m: p.m->Some_0 }),
            Err(e) => Err(e),
        },
        ShapeType::MultiPointZ => match spec_decode_multipoint(
            s,
            c0,
            declared,
            avail,
            BlockKind::WithZ,
            cfg,
        ) {
            Ok(p) => Ok(GeometryV::MultiPointZ { base: p.base, z: p.z->Some_0, m: p.m }),
            Err(e) => Err(e),
        },
        ShapeType::PolyLine => match spec_decode_parted(
            s,
            c0,
            declared,
            avail,
            false,
            BlockKind::Plain,
            cfg,
        ) {
            Ok(p) => Ok(GeometryV::PolyLine(p.base)),
            Err(e) => Err(e),
        },
        ShapeType::PolyLineM => match spec_decode_parted(
            s,
            c0,
            declared,
            avail,
            false,
            BlockKind::WithM,
            cfg,
        ) {
            Ok(p) => Ok(GeometryV::PolyLineM { base: p.base, m: p.m->Some_0 }),
            Err(e) => Err(e),
        },
        ShapeType::PolyLineZ => match spec_decode_parted(
            s,
            c0,
            declared,
            avail,
            false,
            BlockKind::WithZ,
            cfg,
        ) {
            Ok(p) => Ok(GeometryV::PolyLineZ { base: p.base, z: p.z->Some_0, m: p.m }),
            Err(e) => Err(e),
        },
        ShapeType::Polygon => match spec_decode_parted(
            s,
            c0,
            declared,
            avail,
            false,
            BlockKind::Plain,
            cfg,
        ) {
            Ok(p) => Ok(GeometryV::Polygon(p.base)),
            Err(e) => Err(e),
        },
        ShapeType::PolygonM => match spec_decode_parted(
            s,
            c0,
            declared,
            avail,
            false,
            BlockKind::WithM,
            cfg,
        ) {
            Ok(p) => Ok(GeometryV::PolygonM { base: p.base, m: p.m->Some_0 }),
            Err(e) => Err(e),
        },
        ShapeType::PolygonZ => match spec_decode_parted(
            s,
            c0,
            declared,
            avail,
            false,
            BlockKind::WithZ,
            cfg,
        ) {
            Ok(p) => Ok(GeometryV::PolygonZ { base: p.base, z: p.z->Some_0, m: p.m }),
            Err(e) => Err(e),
        },
        ShapeType::MultiPatch => match spec_decode_parted(
            s,
            c0,
            declared,
            avail,
            true,
            BlockKind::WithZ,
            cfg,
        ) {
            Ok(p) => Ok(
                GeometryV::MultiPatch {
                    base: p.base,
                    part_types: p.part_types,
                    z: p.z->Some_0,
                    m: p.m,
                },
            ),
            Err(e) => Err(e),
        },
    }
}

/// What decoding a record's content yields: the shape-type code is read,
/// checked against the format's table and against the file's declared shape
/// type (only null records may differ from it), and the matching body
/// decoder runs.
pub open spec fn spec_decode_content(
    s: Seq<u8>,
    c0: int,
    declared: int,
    avail: int,
    file_shape: ShapeType,
    cfg: Config,
) -> Result<GeometryV, DecodeError> {
    if declared < 4 {
        Err(DecodeError::FramingMismatch)
    } else if avail < 4 {
        Err(DecodeError::TruncatedInput)
    } else {
        let code = le_i32_at(s, c0);
        match spec_shape_of_code(code) {
            None => Err(DecodeError::UnknownShapeType(code)),
            Some(st) => if st != ShapeType::NullShape && st != file_shape {
                Err(DecodeError::UnsupportedShapeType(code))
            } else {
                spec_decode_body(s, c0, declared, avail, st, cfg)
            },
        }
    }
}


// ----------------------------------------------------------------------------
// Executable array readers.
// ----------------------------------------------------------------------------

/// Reads the planar bounding box at `off`.
fn read_bbox2(data: &Vec<u8>, off: usize) -> (r: BoundingBox2D)
    requires
        off + 32 <= data.len(),
    ensures
        r == bbox2_at(data@, off as int),
{
    BoundingBox2D {
        x_min: read_le_u64(data, off),
        y_min: read_le_u64(data, off + 8),
        x_max: read_le_u64(data, off + 16),
        y_max: read_le_u64(data, off + 24),
    }
}

/// Reads the `n` points starting at `off`.
fn read_points_arr(data: &Vec<u8>, off: usize, n: usize) -> (r: Vec<PointXY>)
    requires
        off + 16 * n <= data.len(),
    ensures
        r@ == points_at(data@, off as int, n as int),
{
    let mut v: Vec<PointXY> = Vec::new();
    let mut i: usize = 0;
    while i < n
        invariant
            off + 16 * n <= data.len(),
            i <= n,
            v@ == points_at(data@, off as int, i as int),
        decreases n - i,
    {
        let x = read_le_u64(data, off + 16 * i);
        let y = read_le_u64(data, off + 16 * i + 8);
        v.push(PointXY { x, y });
        proof {
            assert(v@ =~= points_at(data@, off as int, i + 1));
        }
        i = i + 1;
    }
    v
}

/// Reads the `n` little-endian 64-bit values starting at `off`.
fn read_u64s_arr(data: &Vec<u8>, off: usize, n: usize) -> (r: Vec<u64>)
    requires
        off + 8 * n <= data.len(),
    ensures
        r@ == u64s_at(data@, off as int, n as int),
{
    let mut v: Vec<u64> = Vec::new();
    let mut i: usize = 0;
    while i < n
        invariant
            off + 8 * n <= data.len(),
            i <= n,
            v@ == u64s_at(data@, off as int, i as int),
        decreases n - i,
    {
        v.push(read_le_u64(data, off + 8 * i));
        proof {
            assert(v@ =~= u64s_at(data@, off as int, i + 1));
        }
        i = i + 1;
    }
    v
}

/// Reads the `n` little-endian 32-bit values starting at `off`.
fn read_i32s_arr(data: &Vec<u8>, off: usize, n: usize) -> (r: Vec<i32>)
    requires
        off + 4 * n <= data.len(),
    ensures
        r@ == i32s_at(data@, off as int, n as int),
{
    let mut v: Vec<i32> = Vec::new();
    let mut i: usize = 0;
    while i < n
        invariant
            off + 4 * n <= data.len(),
            i <= n,
            v@ == i32s_at(data@, off as int, i as int),
        decreases n - i,
    {
        v.push(read_le_i32(data, off + 4 * i));
        proof {
            assert(v@ =~= i32s_at(data@, off as int, i + 1));
        }
        i = i + 1;
    }
    v
}

/// Reads the measure (or Z) block at `off` with `n` values.
fn read_measure_block(data: &Vec<u8>, off: usize, n: usize) -> (r: MeasureBlock)
    requires
        off + 16 + 8 * n <= data.len(),
    ensures
        r@ == measure_at(data@, off as int, n as int),
{
    let min = read_le_u64(data, off);
    let max = read_le_u64(data, off + 8);
    let values = read_u64s_arr(data, off + 16, n);
    MeasureBlock { min, max, values }
}

/// Reads and validates the part-start array at `off`: `np` little-endian
/// 32-bit indices into a point array of length `num_points`, each in range
/// and non-decreasing.
#[verifier::rlimit(30)]
fn read_parts_arr(data: &Vec<u8>, off: usize, np: usize, num_points: i32) -> (r: Result<
    Vec<usize>,
    DecodeError,
>)
    requires
        off + 4 * np <= data.len(),
        num_points >= 0,
    ensures
        match r {
            Ok(v) => raw_parts_ok(i32s_at(data@, off as int, np as int), num_points as int) && v@
                == parts_at(data@, off as int, np as int),
            Err(e) => e == DecodeError::InvalidPartIndex && !raw_parts_ok(
                i32s_at(data@, off as int, np as int),
                num_points as int,
            ),
        },
{
    let ghost raw = i32s_at(data@, off as int, np as int);
    let mut v: Vec<usize> = Vec::new();
    let mut prev: i32 = 0;
    let mut i: usize = 0;
    while i < np
        invariant
            off + 4 * np <= data.len(),
            num_points >= 0,
            i <= np,
            raw == i32s_at(data@, off as int, np as int),
            v@ == parts_at(data@, off as int, i as int),
            forall|j: int| 0 <= j < i ==> 0 <= #[trigger] raw[j] && (raw[j] as int) < num_points
                as int,
            forall|j: int| 0 <= j && j + 1 < i ==> #[trigger] raw[j] <= raw[j + 1],
            i > 0 ==> prev == raw[i - 1],
        decreases np - i,
    {
        let p = read_le_i32(data, off + 4 * i);
        assert(p == raw[i as int]);
        if p < 0 || p >= num_points {
            return Err(DecodeError::InvalidPartIndex);
        }
        if i > 0 && p < prev {
            return Err(DecodeError::InvalidPartIndex);
        }
        v.push(p as usize);
        proof {
            assert(v@ =~= parts_at(data@, off as int, i + 1));
            assert forall|j: int| 0 <= j && j + 1 < i + 1 implies #[trigger] raw[j] <= raw[j + 1] by {
                if j + 1 == i as int {
                    assert(raw[j] == prev);
                    assert(raw[j + 1] == p);
                }
            }
        }
        prev = p;
        i = i + 1;
    }
    Ok(v)
}


// ----------------------------------------------------------------------------
// Executable body decoders.
// ----------------------------------------------------------------------------

/// Byte count of the smallest trailing-block layout for `blocks`.
fn blocks_lo(blocks: BlockKind, n: u64) -> (r: u64)
    requires
        n <= 0x8000_0000,
    ensures
        r as int == blocks_needed_lo(blocks, n as int),
{
    match blocks {
        BlockKind::Plain => 0,
        BlockKind::WithM => 16 + 8 * n,
        BlockKind::WithZ => 16 + 8 * n,
    }
}

/// Byte count of the largest trailing-block layout for `blocks`.
fn blocks_hi(blocks: BlockKind, n: u64) -> (r: u64)
    requires
        n <= 0x8000_0000,
    ensures
        r as int == blocks_needed_hi(blocks, n as int),
{
    match blocks {
        BlockKind::Plain => 0,
        BlockKind::WithM => 16 + 8 * n,
        BlockKind::WithZ => 2 * (16 + 8 * n),
    }
}

/// Decodes a multipoint-family body, returning the base geometry and the
/// trailing Z and measure blocks that were present.
fn decode_multipoint_body(
    data: &Vec<u8>,
    c0: usize,
    declared: usize,
    avail: usize,
    blocks: BlockKind,
    cfg: &Config,
) -> (r: Result<(MultiPointGeom, Option<MeasureBlock>, Option<MeasureBlock>), DecodeError>)
    requires
        c0 + avail <= data.len(),
        avail <= declared,
    ensures
        ({
            let sp = spec_decode_multipoint(
                data@,
                c0 as int,
                declared as int,
                avail as int,
                blocks,
                *cfg,
            );
            match r {
                Ok((base, z, m)) => sp matches Ok(p) && p.base == base@ && p.z
                    == crate::geometry::opt_measure_view(z) && p.m
                    == crate::geometry::opt_measure_view(m),
                Err(e) => sp == Err::<MultiPointParts, DecodeError>(e),
            }
        }),
{
    if declared < 40 {
        return Err(DecodeError::FramingMismatch);
    }
    if avail < 40 {
        return Err(DecodeError::TruncatedInput);
    }
    let num_points = read_le_i32(data, c0 + 36);
    if num_points < 0 || (num_points as usize) > cfg.max_points {
        return Err(DecodeError::LimitExceeded);
    }
    let n = num_points as usize;
    let base_needed_u: u64 = 40 + 16 * (n as u64);
    let lo = base_needed_u + blocks_lo(blocks, n as u64);
    let hi = base_needed_u + blocks_hi(blocks, n as u64);
    if (declared as u64) != lo && (declared as u64) != hi {
        return Err(DecodeError::FramingMismatch);
    }
    if avail < declared {
        return Err(DecodeError::TruncatedInput);
    }
    assert(base_needed_u <= declared as u64);
    let base_needed = base_needed_u as usize;
    let bbox = read_bbox2(data, c0 + 4);
    let points = read_points_arr(data, c0 + 40, n);
    let base = MultiPointGeom { bbox, points };
    let base_end = c0 + base_needed;
    let (z, m) = match blocks {
        BlockKind::Plain => (None, None),
        BlockKind::WithM => (None, Some(read_measure_block(data, base_end, n))),
        BlockKind::WithZ => {
            let zb = read_measure_block(data, base_end, n);
            let mb = if (declared as u64) == hi {
                Some(read_measure_block(data, base_end + 16 + 8 * n, n))
            } else {
                None
            };
            (Some(zb), mb)
        },
    };
    Ok((base, z, m))
}

/// Decodes a parted-family body (polyline, polygon, multipatch), returning
/// the base geometry, the part-type array (empty unless `with_types`), and
/// the trailing blocks that were present.
fn decode_parted_body(
    data: &Vec<u8>,
    c0: usize,
    declared: usize,
    avail: usize,
    with_types: bool,
    blocks: BlockKind,
    cfg: &Config,
) -> (r: Result<(PartedGeom, Vec<i32>, Option<MeasureBlock>, Option<MeasureBlock>), DecodeError>)
    requires
        c0 + avail <= data.len(),
        avail <= declared,
    ensures
        ({
            let sp = spec_decode_parted(
                data@,
                c0 as int,
                declared as int,
                avail as int,
                with_types,
                blocks,
                *cfg,
            );
            match r {
                Ok((base, types, z, m)) => sp matches Ok(p) && p.base == base@ && p.part_types
                    == types@ && p.z == crate::geometry::opt_measure_view(z) && p.m
                    == crate::geometry::opt_measure_view(m),
                Err(e) => sp == Err::<PartedParts, DecodeError>(e),
            }
        }),
{
    if declared < 44 {
        return Err(DecodeError::FramingMismatch);
    }
    if avail < 44 {
        return Err(DecodeError::TruncatedInput);
    }
    let num_parts = read_le_i32(data, c0 + 36);
    let num_points = read_le_i32(data, c0 + 40);
    if num_parts < 0 || (num_parts as usize) > cfg.max_parts || num_points < 0 || (num_points
        as usize) > cfg.max_points {
        return Err(DecodeError::LimitExceeded);
    }
    let np = num_parts as usize;
    let n = num_points as usize;
    let types_len_u: u64 = if with_types {
        4 * (np as u64)
    } else {
        0
    };
    let base_needed_u: u64 = 44 + 4 * (np as u64) + types_len_u + 16 * (n as u64);
    let lo = base_needed_u + blocks_lo(blocks, n as u64);
    let hi = base_needed_u + blocks_hi(blocks, n as u64);
    if (declared as u64) != lo && (declared as u64) != hi {
        return Err(DecodeError::FramingMismatch);
    }
    if avail < declared {
        return Err(DecodeError::TruncatedInput);
    }
    assert(base_needed_u <= declared as u64);
    let parts_off = c0 + 44;
    let parts = match read_parts_arr(data, parts_off, np, num_points) {
        Ok(v) => v,
        Err(e) => {
            return Err(e);
        },
    };
    let types_off = parts_off + 4 * np;
    let part_types: Vec<i32> = if with_types {
        read_i32s_arr(data, types_off, np)
    } else {
        Vec::new()
    };
    let pts_off = if with_types {
        types_off + 4 * np
    } else {
        types_off
    };
    let points = read_points_arr(data, pts_off, n);
    let base = PartedGeom { bbox: read_bbox2(data, c0 + 4), parts, points };
    let base_needed = base_needed_u as usize;
    let base_end = c0 + base_needed;
    let (z, m) = match blocks {
        BlockKind::Plain => (None, None),
        BlockKind::WithM => (None, Some(read_measure_block(data, base_end, n))),
        BlockKind::WithZ => {
            let zb = read_measure_block(data, base_end, n);
            let mb = if (declared as u64) == hi {
                Some(read_measure_block(data, base_end + 16 + 8 * n, n))
            } else {
                None
            };
            (Some(zb), mb)
        },
    };
    Ok((base, part_types, z, m))
}


// ----------------------------------------------------------------------------
// Content dispatch.
// ----------------------------------------------------------------------------

/// Decodes one record's content: the little-endian shape-type code at `c0`
/// followed by the body in that shape's layout.  `declared` is the byte
/// count the record's framing announced, `avail` how many of those bytes
/// the input holds (`avail <= declared`); a body whose layout wants more
/// than `declared` is a `FramingMismatch`, one whose layout fits `declared`
/// but not `avail` a `TruncatedInput`.  Only a null record may differ from
/// the file's declared shape type.  The result equals `spec_decode_content`
/// on the same bytes.
pub fn decode_record_content(
    data: &Vec<u8>,
    c0: usize,
    declared: usize,
    avail: usize,
    file_shape: ShapeType,
    cfg: &Config,
) -> (r: Result<Geometry, DecodeError>)
    requires
        c0 + avail <= data.len(),
        avail <= declared,
    ensures
        ({
            let sp = spec_decode_content(
                data@,
                c0 as int,
                declared as int,
                avail as int,
                file_shape,
                *cfg,
            );
            match r {
                Ok(g) => sp == Ok::<GeometryV, DecodeError>(g@),
                Err(e) => sp == Err::<GeometryV, DecodeError>(e),
            }
        }),
{
    if declared < 4 {
        return Err(DecodeError::FramingMismatch);
    }
    if avail < 4 {
        return Err(DecodeError::TruncatedInput);
    }
    let code = read_le_i32(data, c0);
    let st = match ShapeType::from_i32(code) {
        None => {
            return Err(DecodeError::UnknownShapeType(code));
        },
        Some(st) => st,
    };
    if !(st == ShapeType::NullShape) && !(st == file_shape) {
        return Err(DecodeError::UnsupportedShapeType(code));
    }
    match st {
        ShapeType::NullShape => {
            if declared != 4 {
                Err(DecodeError::FramingMismatch)
            } else {
                Ok(Geometry::Null)
            }
        },
        ShapeType::Point => {
            if declared != 20 {
                Err(DecodeError::FramingMismatch)
            } else if avail < 20 {
                Err(DecodeError::TruncatedInput)
            } else {
                let x = read_le_u64(data, c0 + 4);
                let y = read_le_u64(data, c0 + 12);
                Ok(Geometry::Point(PointXY { x, y }))
            }
        },
        ShapeType::PointM => {
            if declared != 28 {
                Err(DecodeError::FramingMismatch)
            } else if avail < 28 {
                Err(DecodeError::TruncatedInput)
            } else {
                let x = read_le_u64(data, c0 + 4);
                let y = read_le_u64(data, c0 + 12);
                let m = read_le_u64(data, c0 + 20);
                Ok(Geometry::PointM { point: PointXY { x, y }, m })
            }
        },
        ShapeType::PointZ => {
            if declared != 28 && declared != 36 {
                Err(DecodeError::FramingMismatch)
            } else if avail < declared {
                Err(DecodeError::TruncatedInput)
            } else {
                let x = read_le_u64(data, c0 + 4);
                let y = read_le_u64(data, c0 + 12);
                let z = read_le_u64(data, c0 + 20);
                let m = if declared == 36 {
                    Some(read_le_u64(data, c0 + 28))
                } else {
                    None
                };
                Ok(Geometry::PointZ { point: PointXY { x, y }, z, m })
            }
        },
        ShapeType::MultiPoint => {
            match decode_multipoint_body(data, c0, declared, avail, BlockKind::Plain, cfg) {
                Ok((base, _, _)) => Ok(Geometry::MultiPoint(base)),
                Err(e) => Err(e),
            }
        },
        ShapeType::MultiPointM => {
            match decode_multipoint_body(data, c0, declared, avail, BlockKind::WithM, cfg) {
                Ok((base, _, Some(m))) => Ok(Geometry::MultiPointM { base, m }),
                Ok((_, _, None)) => vstd::pervasive::unreached(),
                Err(e) => Err(e),
            }
        },
        ShapeType::MultiPointZ => {
            match decode_multipoint_body(data, c0, declared, avail, BlockKind::WithZ, cfg) {
                Ok((base, Some(z), m)) => Ok(Geometry::MultiPointZ { base, z, m }),
                Ok((_, None, _)) => vstd::pervasive::unreached(),
                Err(e) => Err(e),
            }
        },
        ShapeType::PolyLine => {
            match decode_parted_body(data, c0, declared, avail, false, BlockKind::Plain, cfg) {
                Ok((base, _, _, _)) => Ok(Geometry::PolyLine(base)),
                Err(e) => Err(e),
            }
        },
        ShapeType::PolyLineM => {
            match decode_parted_body(data, c0, declared, avail, false, BlockKind::WithM, cfg) {
                Ok((base, _, _, Some(m))) => Ok(Geometry::PolyLineM { base, m }),
                Ok((_, _, _, None)) => vstd::pervasive::unreached(),
                Err(e) => Err(e),
            }
        },
        ShapeType::PolyLineZ => {
            match decode_parted_body(data, c0, declared, avail, false, BlockKind::WithZ, cfg) {
                Ok((base, _, Some(z), m)) => Ok(Geometry::PolyLineZ { base, z, m }),
                Ok((_, _, None, _)) => vstd::pervasive::unreached(),
                Err(e) => Err(e),
            }
        },
        ShapeType::Polygon => {
            match decode_parted_body(data, c0, declared, avail, false, BlockKind::Plain, cfg) {
                Ok((base, _, _, _)) => Ok(Geometry::Polygon(base)),
                Err(e) => Err(e),
            }
        },
        ShapeType::PolygonM => {
            match decode_parted_body(data, c0, declared, avail, false, BlockKind::WithM, cfg) {
                Ok((base, _, _, Some(m))) => Ok(Geometry::PolygonM { base, m }),
                Ok((_, _, _, None)) => vstd::pervasive::unreached(),
                Err(e) => Err(e),
            }
        },
        ShapeType::PolygonZ => {
            match decode_parted_body(data, c0, declared, avail, false, BlockKind::WithZ, cfg) {
                Ok((base, _, Some(z), m)) => Ok(Geometry::PolygonZ { base, z, m }),
                Ok((_, _, None, _)) => vstd::pervasive::unreached(),
                Err(e) => Err(e),
            }
        },
        ShapeType::MultiPatch => {
            match decode_parted_body(data, c0, declared, avail, true, BlockKind::WithZ, cfg) {
                Ok((base, part_types, Some(z), m)) => Ok(
                    Geometry::MultiPatch { base, part_types, z, m },
                ),
                Ok((_, _, None, _)) => vstd::pervasive::unreached(),
                Err(e) => Err(e),
            }
        },
    }
}


// ----------------------------------------------------------------------------
// Record framing.
// ----------------------------------------------------------------------------

/// One decoded record: its framing fields and geometry.
#[derive(Clone, Debug, PartialEq, Eq)]
pub struct Record {
    /// One-based record number, as stored (big-endian).
    pub record_number: i32,
    /// Declared content length in 16-bit words, as stored (big-endian).
    pub content_length: i32,
    pub geometry: Geometry,
}

/// View of a `Record`.
pub struct RecordV {
    pub record_number: i32,
    pub content_length: i32,
    pub geometry: GeometryV,
}

impl View for Record {
    type V = RecordV;

    open spec fn view(&self) -> RecordV {
        RecordV {
            record_number: self.record_number,
            content_length: self.content_length,
            geometry: self.geometry@,
        }
    }
}

/// A per-record decode failure: the byte offset at which the record began
/// and the cause.
#[derive(Clone, Copy, Debug, PartialEq, Eq, Structural)]
pub struct RecordError {
    pub offset: usize,
    pub kind: DecodeError,
}

/// What decoding one record yields.
///
/// - `Value`: a record decoded; the stream continues at `next`.
/// - `Skip`: a record of unknown shape type skipped silently (only under
///   `permissive_shape_dispatch`); the stream continues at `next`.
/// - `Recoverable`: the record is malformed but the framing fields were
///   readable; the error is surfaced and the stream resynchronizes to
///   `next`, derived from the declared content length.
/// - `Fatal`: the framing fields themselves could not be read (truncated
///   prefix, or a negative content length that admits no resync offset);
///   the stream terminates after surfacing the error.
pub enum RecordOutcome {
    Value { record: Record, next: usize },
    Skip { next: usize },
    Recoverable { error: RecordError, next: usize },
    Fatal { error: RecordError },
}

/// View of a `RecordOutcome`.
pub enum RecordOutcomeV {
    Value { record: RecordV, next: usize },
    Skip { next: usize },
    Recoverable { error: RecordError, next: usize },
    Fatal { error: RecordError },
}

impl View for RecordOutcome {
    type V = RecordOutcomeV;

    open spec fn view(&self) -> RecordOutcomeV {
        match self {
            RecordOutcome::Value { record, next } => RecordOutcomeV::Value {
                record: record@,
                next: *next,
            },
            RecordOutcome::Skip { next } => RecordOutcomeV::Skip { next: *next },
            RecordOutcome::Recoverable { error, next } => RecordOutcomeV::Recoverable {
                error: *error,
                next: *next,
            },
            RecordOutcome::Fatal { error } => RecordOutcomeV::Fatal { error: *error },
        }
    }
}

/// What decoding the record that begins at byte offset `pos` yields, with
/// readable input ending at `end`.  On every outcome but `Fatal` the next
/// record boundary is `min(pos + 8 + declared content bytes, end)`, a
/// function of the framing fields alone.
pub open spec fn spec_decode_record(
    s: Seq<u8>,
    pos: int,
    end: int,
    file_shape: ShapeType,
    cfg: Config,
) -> RecordOutcomeV {
    if end - pos < 8 {
        RecordOutcomeV::Fatal {
            error: RecordError { offset: pos as usize, kind: DecodeError::TruncatedInput },
        }
    } else {
        let clen = be_i32_at(s, pos + 4);
        if clen < 0 {
            RecordOutcomeV::Fatal {
                error: RecordError { offset: pos as usize, kind: DecodeError::FramingMismatch },
            }
        } else {
            let declared = 2 * (clen as int);
            let c0 = pos + 8;
            let avail = if end - c0 < declared {
                end - c0
            } else {
                declared
            };
            let next = (c0 + avail) as usize;
            match spec_decode_content(s, c0, declared, avail, file_shape, cfg) {
                Ok(g) => RecordOutcomeV::Value {
                    record: RecordV {
                        record_number: be_i32_at(s, pos),
                        content_length: clen,
                        geometry: g,
                    },
                    next,
                },
                Err(e) => if cfg.permissive_shape_dispatch && e is UnknownShapeType {
                    RecordOutcomeV::Skip { next }
                } else {
                    RecordOutcomeV::Recoverable {
                        error: RecordError { offset: pos as usize, kind: e },
                        next,
                    }
                },
            }
        }
    }
}

/// Decodes the record beginning at byte offset `pos`, reading no further
/// than `end`.  The stream advances by the declared content length (not by
/// what the body decoder consumed), so a malformed body does not lose the
/// following records.  The result equals `spec_decode_record`.
pub fn decode_record(
    data: &Vec<u8>,
    pos: usize,
    end: usize,
    file_shape: ShapeType,
    cfg: &Config,
) -> (r: RecordOutcome)
    requires
        pos <= end,
        end <= data.len(),
    ensures
        r@ == spec_decode_record(data@, pos as int, end as int, file_shape, *cfg),
{
    if end - pos < 8 {
        return RecordOutcome::Fatal {
            error: RecordError { offset: pos, kind: DecodeError::TruncatedInput },
        };
    }
    let record_number = read_be_i32(data, pos);
    let content_length = read_be_i32(data, pos + 4);
    if content_length < 0 {
        return RecordOutcome::Fatal {
            error: RecordError { offset: pos, kind: DecodeError::FramingMismatch },
        };
    }
    let declared = 2 * (content_length as usize);
    let c0 = pos + 8;
    let rem = end - c0;
    let avail = if rem < declared {
        rem
    } else {
        declared
    };
    let next = c0 + avail;
    match decode_record_content(data, c0, declared, avail, file_shape, cfg) {
        Ok(geometry) => RecordOutcome::Value {
            record: Record { record_number, content_length, geometry },
            next,
        },
        Err(e) => {
            let unknown = match e {
                DecodeError::UnknownShapeType(_) => true,
                _ => false,
            };
            if cfg.permissive_shape_dispatch && unknown {
                RecordOutcome::Skip { next }
            } else {
                RecordOutcome::Recoverable { error: RecordError { offset: pos, kind: e }, next }
            }
        },
    }
}


// ----------------------------------------------------------------------------
// Validity of decoded values.
// ----------------------------------------------------------------------------

/// Every part-start array a parted decode accepts yields well-formed
/// indices once reinterpreted as `usize`.
proof fn lemma_parts_at_wf(s: Seq<u8>, off: int, np: int, n: int)
    requires
        0 <= np,
        raw_parts_ok(i32s_at(s, off, np), n),
    ensures
        crate::geometry::parts_wf(parts_at(s, off, np), n),
{
    let raw = i32s_at(s, off, np);
    let ps = parts_at(s, off, np);
    assert forall|i: int| 0 <= i < ps.len() implies (#[trigger] ps[i] as int) < n by {
        assert(0 <= raw[i] && (raw[i] as int) < n);
    }
    assert forall|i: int| 0 <= i && i + 1 < ps.len() implies #[trigger] ps[i] <= ps[i + 1] by {
        assert(0 <= raw[i] && raw[i] <= raw[i + 1]);
    }
}

/// Every geometry value a successful decode produces is well formed: its
/// part-start indices lie in `0 .. num_points` and are non-decreasing, its
/// Z and measure blocks carry one value per point, and a multipatch has
/// one part type per part.
pub proof fn lemma_decoded_geometry_wf(
    s: Seq<u8>,
    c0: int,
    declared: int,
    avail: int,
    file_shape: ShapeType,
    cfg: Config,
    g: GeometryV,
)
    requires
        spec_decode_content(s, c0, declared, avail, file_shape, cfg) == Ok::<
            GeometryV,
            DecodeError,
        >(g),
    ensures
        crate::geometry::geom_wf(g),
{
    let code = le_i32_at(s, c0);
    match spec_shape_of_code(code) {
        None => {
            assert(false);
        },
        Some(st) => {
            match st {
                ShapeType::PolyLine | ShapeType::PolyLineM | ShapeType::PolyLineZ
                    | ShapeType::Polygon | ShapeType::PolygonM | ShapeType::PolygonZ
                    | ShapeType::MultiPatch => {
                    let with_types = st is MultiPatch;
                    let blocks = if st is PolyLine || st is Polygon {
                        BlockKind::Plain
                    } else if st is PolyLineM || st is PolygonM {
                        BlockKind::WithM
                    } else {
                        BlockKind::WithZ
                    };
                    let num_parts = le_i32_at(s, c0 + 36);
                    let num_points = le_i32_at(s, c0 + 40);
                    lemma_parts_at_wf(s, c0 + 44, num_parts as int, num_points as int);
                },
                _ => {
                },
            }
        },
    }
}

} // verus!
