//! Re-encoding of geometry values, and the round-trip law: decoding a
//! record's content and encoding the resulting geometry reproduces the
//! original bytes exactly.

use vstd::prelude::*;
use crate::bytes::{
    be_i32_at, be_i32_bytes, le_i32_at, le_i32_bytes, le_u64_bytes, lemma_be_i32_roundtrip,
    lemma_le_i32_roundtrip, lemma_le_u64_roundtrip, push_be_i32, push_le_i32, push_le_u64,
};
use crate::error::{Config, DecodeError};
use crate::geometry::{
    spec_shape_of_geom, BoundingBox2D, Geometry, GeometryV, MeasureBlock, MeasureBlockV,
    MultiPointGeomV, PartedGeomV, PointXY,
};
use crate::record::{
    bbox2_at, i32s_at, measure_at, parts_at, points_at, spec_decode_content,
    spec_decode_multipoint, spec_decode_parted, spec_decode_record, u64s_at, BlockKind,
    MultiPointParts, PartedParts, RecordOutcomeV, RecordV,
};
use crate::shape::spec_code_of_shape;

verus! {

// ----------------------------------------------------------------------------
// The encoding, as a function of the geometry value.
// ----------------------------------------------------------------------------

/// The bytes of a point array.
pub open spec fn enc_points(ps: Seq<PointXY>) -> Seq<u8>
    decreases ps.len(),
{
    if ps.len() == 0 {
        Seq::empty()
    } else {
        le_u64_bytes(ps[0].x) + le_u64_bytes(ps[0].y) + enc_points(ps.drop_first())
    }
}

/// The bytes of an array of little-endian 64-bit values.
pub open spec fn enc_u64s(vs: Seq<u64>) -> Seq<u8>
    decreases vs.len(),
{
    if vs.len() == 0 {
        Seq::empty()
    } else {
        le_u64_bytes(vs[0]) + enc_u64s(vs.drop_first())
    }
}

/// The bytes of an array of little-endian 32-bit values.
pub open spec fn enc_i32s(vs: Seq<i32>) -> Seq<u8>
    decreases vs.len(),
{
    if vs.len() == 0 {
        Seq::empty()
    } else {
        le_i32_bytes(vs[0]) + enc_i32s(vs.drop_first())
    }
}

/// The bytes of a part-start array, stored as little-endian 32-bit values.
pub open spec fn enc_parts(ps: Seq<usize>) -> Seq<u8>
    decreases ps.len(),
{
    if ps.len() == 0 {
        Seq::empty()
    } else {
        le_i32_bytes(ps[0] as i32) + enc_parts(ps.drop_first())
    }
}

/// The bytes of a planar bounding box.
pub open spec fn enc_bbox2(b: BoundingBox2D) -> Seq<u8> {
    le_u64_bytes(b.x_min) + le_u64_bytes(b.y_min) + le_u64_bytes(b.x_max) + le_u64_bytes(b.y_max)
}

/// The bytes of a measure (or Z) block.
pub open spec fn enc_measure(m: MeasureBlockV) -> Seq<u8> {
    le_u64_bytes(m.min) + le_u64_bytes(m.max) + enc_u64s(m.values)
}

/// The bytes of an optional measure block: absent blocks contribute none.
pub open spec fn enc_opt_measure(m: Option<MeasureBlockV>) -> Seq<u8> {
    match m {
        Some(b) => enc_measure(b),
        None => Seq::empty(),
    }
}

/// The bytes of a multipoint-family base: bounding box, point count,
/// points.
pub open spec fn enc_multipoint_base(b: MultiPointGeomV) -> Seq<u8> {
    enc_bbox2(b.bbox) + le_i32_bytes(b.points.len() as i32) + enc_points(b.points)
}

/// The bytes of a parted-family base: bounding box, part count, point
/// count, part-start array, part-type array (empty except for multipatch),
/// points.
pub open spec fn enc_parted_base(b: PartedGeomV, types: Seq<i32>) -> Seq<u8> {
    enc_bbox2(b.bbox) + le_i32_bytes(b.parts.len() as i32) + le_i32_bytes(b.points.len() as i32)
        + enc_parts(b.parts) + enc_i32s(types) + enc_points(b.points)
}

/// The content bytes of a record holding geometry `g`: the shape-type code
/// followed by the shape's layout.  This is the inverse of
/// `spec_decode_content` on every decodable input.
pub open spec fn spec_encode_content(g: GeometryV) -> Seq<u8> {
    le_i32_bytes(spec_code_of_shape(spec_shape_of_geom(g))) + match g {
        GeometryV::Null => Seq::<u8>::empty(),
        GeometryV::Point(p) => le_u64_bytes(p.x) + le_u64_bytes(p.y),
        GeometryV::PointM { point, m } => le_u64_bytes(point.x) + le_u64_bytes(point.y)
            + le_u64_bytes(m),
        GeometryV::PointZ { point, z, m } => le_u64_bytes(point.x) + le_u64_bytes(point.y)
            + le_u64_bytes(z) + match m {
            Some(mv) => le_u64_bytes(mv),
            None => Seq::<u8>::empty(),
        },
        GeometryV::MultiPoint(b) => enc_multipoint_base(b),
        GeometryV::MultiPointM { base, m } => enc_multipoint_base(base) + enc_measure(m),
        GeometryV::MultiPointZ { base, z, m } => enc_multipoint_base(base) + enc_measure(z)
            + enc_opt_measure(m),
        GeometryV::PolyLine(b) => enc_parted_base(b, Seq::empty()),
        GeometryV::PolyLineM { base, m } => enc_parted_base(base, Seq::empty()) + enc_measure(m),
        GeometryV::PolyLineZ { base, z, m } => enc_parted_base(base, Seq::empty()) + enc_measure(z)
            + enc_opt_measure(m),
        GeometryV::Polygon(b) => enc_parted_base(b, Seq::empty()),
        GeometryV::PolygonM { base, m } => enc_parted_base(base, Seq::empty()) + enc_measure(m),
        GeometryV::PolygonZ { base, z, m } => enc_parted_base(base, Seq::empty()) + enc_measure(z)
            + enc_opt_measure(m),
        GeometryV::MultiPatch { base, part_types, z, m } => enc_parted_base(base, part_types)
            + enc_measure(z) + enc_opt_measure(m),
    }
}


// ----------------------------------------------------------------------------
// Round-trip lemmas: encoding what was decoded reproduces the bytes.
// ----------------------------------------------------------------------------

pub proof fn lemma_enc_points_at(s: Seq<u8>, off: int, n: int)
    requires
        0 <= off,
        0 <= n,
        off + 16 * n <= s.len(),
    ensures
        enc_points(points_at(s, off, n)) =~= s.subrange(off, off + 16 * n),
    decreases n,
{
    if n == 0 {
    } else {
        let ps = points_at(s, off, n);
        assert(ps.drop_first() =~= points_at(s, off + 16, n - 1));
        lemma_le_u64_roundtrip(s, off);
        lemma_le_u64_roundtrip(s, off + 8);
        lemma_enc_points_at(s, off + 16, n - 1);
    }
}

pub proof fn lemma_enc_u64s_at(s: Seq<u8>, off: int, n: int)
    requires
        0 <= off,
        0 <= n,
        off + 8 * n <= s.len(),
    ensures
        enc_u64s(u64s_at(s, off, n)) =~= s.subrange(off, off + 8 * n),
    decreases n,
{
    if n == 0 {
    } else {
        let vs = u64s_at(s, off, n);
        assert(vs.drop_first() =~= u64s_at(s, off + 8, n - 1));
        lemma_le_u64_roundtrip(s, off);
        lemma_enc_u64s_at(s, off + 8, n - 1);
    }
}

pub proof fn lemma_enc_i32s_at(s: Seq<u8>, off: int, n: int)
    requires
        0 <= off,
        0 <= n,
        off + 4 * n <= s.len(),
    ensures
        enc_i32s(i32s_at(s, off, n)) =~= s.subrange(off, off + 4 * n),
    decreases n,
{
    if n == 0 {
    } else {
        let vs = i32s_at(s, off, n);
        assert(vs.drop_first() =~= i32s_at(s, off + 4, n - 1));
        lemma_le_i32_roundtrip(s, off);
        lemma_enc_i32s_at(s, off + 4, n - 1);
    }
}

/// Part-start arrays round-trip: the stored values are non-negative, so
/// the pass through `usize` and back to `i32` is the identity.
pub proof fn lemma_enc_parts_at(s: Seq<u8>, off: int, n: int)
    requires
        0 <= off,
        0 <= n,
        off + 4 * n <= s.len(),
        forall|i: int| 0 <= i < n ==> #[trigger] i32s_at(s, off, n)[i] >= 0,
    ensures
        enc_parts(parts_at(s, off, n)) =~= s.subrange(off, off + 4 * n),
    decreases n,
{
    if n == 0 {
    } else {
        let ps = parts_at(s, off, n);
        assert(ps.drop_first() =~= parts_at(s, off + 4, n - 1));
        assert(i32s_at(s, off, n)[0] >= 0);
        assert(ps[0] as i32 == le_i32_at(s, off));
        lemma_le_i32_roundtrip(s, off);
        assert forall|i: int| 0 <= i < n - 1 implies #[trigger] i32s_at(s, off + 4, n - 1)[i]
            >= 0 by {
            assert(i32s_at(s, off, n)[i + 1] >= 0);
            assert(i32s_at(s, off + 4, n - 1)[i] == le_i32_at(s, off + 4 + 4 * i));
            assert(i32s_at(s, off, n)[i + 1] == le_i32_at(s, off + 4 * (i + 1)));
        }
        lemma_enc_parts_at(s, off + 4, n - 1);
    }
}

pub proof fn lemma_enc_bbox2_at(s: Seq<u8>, off: int)
    requires
        0 <= off,
        off + 32 <= s.len(),
    ensures
        enc_bbox2(bbox2_at(s, off)) =~= s.subrange(off, off + 32),
{
    lemma_le_u64_roundtrip(s, off);
    lemma_le_u64_roundtrip(s, off + 8);
    lemma_le_u64_roundtrip(s, off + 16);
    lemma_le_u64_roundtrip(s, off + 24);
}

pub proof fn lemma_enc_measure_at(s: Seq<u8>, off: int, n: int)
    requires
        0 <= off,
        0 <= n,
        off + 16 + 8 * n <= s.len(),
    ensures
        enc_measure(measure_at(s, off, n)) =~= s.subrange(off, off + 16 + 8 * n),
{
    lemma_le_u64_roundtrip(s, off);
    lemma_le_u64_roundtrip(s, off + 8);
    lemma_enc_u64s_at(s, off + 16, n);
}


/// Adjacent subranges concatenate to the enclosing subrange.
proof fn lemma_subrange_concat(s: Seq<u8>, a: int, b: int, c: int)
    requires
        0 <= a <= b <= c <= s.len(),
    ensures
        s.subrange(a, b) + s.subrange(b, c) =~= s.subrange(a, c),
{
}

/// A decoded multipoint-family body re-encodes to exactly the bytes after
/// the shape-type code, and a successful decode consumed the full declared
/// length.
pub proof fn lemma_multipoint_roundtrip(
    s: Seq<u8>,
    c0: int,
    declared: int,
    avail: int,
    blocks: BlockKind,
    cfg: Config,
    p: MultiPointParts,
)
    requires
        0 <= c0,
        c0 + avail <= s.len(),
        avail <= declared,
        spec_decode_multipoint(s, c0, declared, avail, blocks, cfg) == Ok::<
            MultiPointParts,
            DecodeError,
        >(p),
    ensures
        avail == declared,
        enc_multipoint_base(p.base) + enc_opt_measure(p.z) + enc_opt_measure(p.m) =~= s.subrange(
            c0 + 4,
            c0 + declared,
        ),
{
    let num_points = le_i32_at(s, c0 + 36);
    let n = num_points as int;
    let base_needed = 40 + 16 * n;
    lemma_enc_bbox2_at(s, c0 + 4);
    lemma_le_i32_roundtrip(s, c0 + 36);
    lemma_enc_points_at(s, c0 + 40, n);
    assert(p.base.points.len() == n);
    assert((p.base.points.len() as i32) == num_points);
    let base = enc_multipoint_base(p.base);
    lemma_subrange_concat(s, c0 + 4, c0 + 36, c0 + 40);
    lemma_subrange_concat(s, c0 + 4, c0 + 40, c0 + base_needed);
    assert(base == s.subrange(c0 + 4, c0 + base_needed));
    match blocks {
        BlockKind::Plain => {
            assert(declared == base_needed);
            assert(base + enc_opt_measure(p.z) + enc_opt_measure(p.m) =~= base);
        },
        BlockKind::WithM => {
            assert(declared == base_needed + 16 + 8 * n);
            lemma_enc_measure_at(s, c0 + base_needed, n);
            lemma_subrange_concat(s, c0 + 4, c0 + base_needed, c0 + declared);
            assert(base + enc_opt_measure(p.z) =~= base);
            assert(base + enc_opt_measure(p.z) + enc_opt_measure(p.m) == s.subrange(
                c0 + 4,
                c0 + declared,
            ));
        },
        BlockKind::WithZ => {
            lemma_enc_measure_at(s, c0 + base_needed, n);
            if declared == base_needed + 2 * (16 + 8 * n) {
                lemma_subrange_concat(s, c0 + 4, c0 + base_needed, c0 + base_needed + 16 + 8 * n);
                lemma_enc_measure_at(s, c0 + base_needed + 16 + 8 * n, n);
                lemma_subrange_concat(
                    s,
                    c0 + 4,
                    c0 + base_needed + 16 + 8 * n,
                    c0 + declared,
                );
                assert(base + enc_opt_measure(p.z) + enc_opt_measure(p.m) == s.subrange(
                    c0 + 4,
                    c0 + declared,
                ));
            } else {
                assert(declared == base_needed + 16 + 8 * n);
                lemma_subrange_concat(s, c0 + 4, c0 + base_needed, c0 + declared);
                assert(base + enc_opt_measure(p.z) + enc_opt_measure(p.m) =~= base
                    + enc_opt_measure(p.z));
                assert(base + enc_opt_measure(p.z) == s.subrange(c0 + 4, c0 + declared));
            }
        },
    }
}

/// A decoded parted-family body re-encodes to exactly the bytes after the
/// shape-type code, and a successful decode consumed the full declared
/// length.
#[verifier::rlimit(100)]
#[verifier::spinoff_prover]
pub proof fn lemma_parted_roundtrip(
    s: Seq<u8>,
    c0: int,
    declared: int,
    avail: int,
    with_types: bool,
    blocks: BlockKind,
    cfg: Config,
    p: PartedParts,
)
    requires
        0 <= c0,
        c0 + avail <= s.len(),
        avail <= declared,
        spec_decode_parted(s, c0, declared, avail, with_types, blocks, cfg) == Ok::<
            PartedParts,
            DecodeError,
        >(p),
    ensures
        avail == declared,
        enc_parted_base(p.base, p.part_types) + enc_opt_measure(p.z) + enc_opt_measure(p.m)
            =~= s.subrange(c0 + 4, c0 + declared),
{
    let num_parts = le_i32_at(s, c0 + 36);
    let num_points = le_i32_at(s, c0 + 40);
    let np = num_parts as int;
    let n = num_points as int;
    let types_len = if with_types {
        4 * np
    } else {
        0
    };
    let base_needed = 44 + 4 * np + types_len + 16 * n;
    let types_off = c0 + 44 + 4 * np;
    let pts_off = types_off + types_len;
    lemma_enc_bbox2_at(s, c0 + 4);
    lemma_le_i32_roundtrip(s, c0 + 36);
    lemma_le_i32_roundtrip(s, c0 + 40);
    assert(p.base.parts.len() == np);
    assert((p.base.parts.len() as i32) == num_parts);
    assert(p.base.points.len() == n);
    assert((p.base.points.len() as i32) == num_points);
    lemma_enc_parts_at(s, c0 + 44, np);
    if with_types {
        lemma_enc_i32s_at(s, types_off, np);
    } else {
        assert(p.part_types =~= Seq::<i32>::empty());
        assert(enc_i32s(p.part_types) =~= s.subrange(types_off, pts_off));
    }
    lemma_enc_points_at(s, pts_off, n);
    lemma_subrange_concat(s, c0 + 4, c0 + 36, c0 + 40);
    lemma_subrange_concat(s, c0 + 4, c0 + 40, c0 + 44);
    lemma_subrange_concat(s, c0 + 4, c0 + 44, types_off);
    lemma_subrange_concat(s, c0 + 4, types_off, pts_off);
    lemma_subrange_concat(s, c0 + 4, pts_off, c0 + base_needed);
    let base = enc_parted_base(p.base, p.part_types);
    assert(base == s.subrange(c0 + 4, c0 + base_needed));
    match blocks {
        BlockKind::Plain => {
            assert(declared == base_needed);
            assert(base + enc_opt_measure(p.z) + enc_opt_measure(p.m) =~= base);
        },
        BlockKind::WithM => {
            assert(declared == base_needed + 16 + 8 * n);
            lemma_enc_measure_at(s, c0 + base_needed, n);
            lemma_subrange_concat(s, c0 + 4, c0 + base_needed, c0 + declared);
            assert(base + enc_opt_measure(p.z) =~= base);
            assert(base + enc_opt_measure(p.z) + enc_opt_measure(p.m) == s.subrange(
                c0 + 4,
                c0 + declared,
            ));
        },
        BlockKind::WithZ => {
            lemma_enc_measure_at(s, c0 + base_needed, n);
            if declared == base_needed + 2 * (16 + 8 * n) {
                lemma_subrange_concat(s, c0 + 4, c0 + base_needed, c0 + base_needed + 16 + 8 * n);
                lemma_enc_measure_at(s, c0 + base_needed + 16 + 8 * n, n);
                lemma_subrange_concat(
                    s,
                    c0 + 4,
                    c0 + base_needed + 16 + 8 * n,
                    c0 + declared,
                );
                assert(base + enc_opt_measure(p.z) + enc_opt_measure(p.m) == s.subrange(
                    c0 + 4,
                    c0 + declared,
                ));
            } else {
                assert(declared == base_needed + 16 + 8 * n);
                lemma_subrange_concat(s, c0 + 4, c0 + base_needed, c0 + declared);
                assert(base + enc_opt_measure(p.z) + enc_opt_measure(p.m) =~= base
                    + enc_opt_measure(p.z));
                assert(base + enc_opt_measure(p.z) == s.subrange(c0 + 4, c0 + declared));
            }
        },
    }
}

/// Round trip for the point-like shapes (null, point, point-with-measure,
/// point-with-z).
#[verifier::rlimit(60)]
#[verifier::spinoff_prover]
proof fn lemma_rt_point_family(
    s: Seq<u8>,
    c0: int,
    declared: int,
    avail: int,
    file_shape: crate::shape::ShapeType,
    cfg: Config,
    g: GeometryV,
    st: crate::shape::ShapeType,
)
    requires
        0 <= c0,
        c0 + avail <= s.len(),
        avail <= declared,
        spec_decode_content(s, c0, declared, avail, file_shape, cfg) == Ok::<
            GeometryV,
            DecodeError,
        >(g),
        crate::shape::spec_shape_of_code(le_i32_at(s, c0)) == Some(st),
        st is NullShape || st is Point || st is PointM || st is PointZ,
    ensures
        avail == declared,
        spec_encode_content(g) =~= s.subrange(c0, c0 + declared),
{
    lemma_le_i32_roundtrip(s, c0);
    match st {
        crate::shape::ShapeType::NullShape => {
        },
        crate::shape::ShapeType::Point => {
            lemma_le_u64_roundtrip(s, c0 + 4);
            lemma_le_u64_roundtrip(s, c0 + 12);
        },
        crate::shape::ShapeType::PointM => {
            lemma_le_u64_roundtrip(s, c0 + 4);
            lemma_le_u64_roundtrip(s, c0 + 12);
            lemma_le_u64_roundtrip(s, c0 + 20);
        },
        crate::shape::ShapeType::PointZ => {
            lemma_le_u64_roundtrip(s, c0 + 4);
            lemma_le_u64_roundtrip(s, c0 + 12);
            lemma_le_u64_roundtrip(s, c0 + 20);
            if declared == 36 {
                lemma_le_u64_roundtrip(s, c0 + 28);
            }
        },
        _ => {
            assert(false);
        },
    }
}

/// Round trip for the multipoint family.
#[verifier::rlimit(100)]
#[verifier::spinoff_prover]
proof fn lemma_rt_multipoint_family(
    s: Seq<u8>,
    c0: int,
    declared: int,
    avail: int,
    file_shape: crate::shape::ShapeType,
    cfg: Config,
    g: GeometryV,
    st: crate::shape::ShapeType,
)
    requires
        0 <= c0,
        c0 + avail <= s.len(),
        avail <= declared,
        spec_decode_content(s, c0, declared, avail, file_shape, cfg) == Ok::<
            GeometryV,
            DecodeError,
        >(g),
        crate::shape::spec_shape_of_code(le_i32_at(s, c0)) == Some(st),
        st is MultiPoint || st is MultiPointM || st is MultiPointZ,
    ensures
        avail == declared,
        spec_encode_content(g) =~= s.subrange(c0, c0 + declared),
{
    lemma_le_i32_roundtrip(s, c0);
    let code = le_i32_at(s, c0);
    let blocks = if st is MultiPoint {
        BlockKind::Plain
    } else if st is MultiPointM {
        BlockKind::WithM
    } else {
        BlockKind::WithZ
    };
    let p = spec_decode_multipoint(s, c0, declared, avail, blocks, cfg)->Ok_0;
    lemma_multipoint_roundtrip(s, c0, declared, avail, blocks, cfg, p);
    assert(spec_encode_content(g) =~= le_i32_bytes(code) + (enc_multipoint_base(p.base)
        + enc_opt_measure(p.z) + enc_opt_measure(p.m)));
}

/// Round trip for the parted family (polylines, polygons, multipatch).
#[verifier::rlimit(100)]
#[verifier::spinoff_prover]
proof fn lemma_rt_parted_family(
    s: Seq<u8>,
    c0: int,
    declared: int,
    avail: int,
    file_shape: crate::shape::ShapeType,
    cfg: Config,
    g: GeometryV,
    st: crate::shape::ShapeType,
)
    requires
        0 <= c0,
        c0 + avail <= s.len(),
        avail <= declared,
        spec_decode_content(s, c0, declared, avail, file_shape, cfg) == Ok::<
            GeometryV,
            DecodeError,
        >(g),
        crate::shape::spec_shape_of_code(le_i32_at(s, c0)) == Some(st),
        st is PolyLine || st is PolyLineM || st is PolyLineZ || st is Polygon || st is PolygonM
            || st is PolygonZ || st is MultiPatch,
    ensures
        avail == declared,
        spec_encode_content(g) =~= s.subrange(c0, c0 + declared),
{
    lemma_le_i32_roundtrip(s, c0);
    let code = le_i32_at(s, c0);
    let with_types = st is MultiPatch;
    let blocks = if st is PolyLine || st is Polygon {
        BlockKind::Plain
    } else if st is PolyLineM || st is PolygonM {
        BlockKind::WithM
    } else {
        BlockKind::WithZ
    };
    let p = spec_decode_parted(s, c0, declared, avail, with_types, blocks, cfg)->Ok_0;
    lemma_parted_roundtrip(s, c0, declared, avail, with_types, blocks, cfg, p);
    assert(spec_encode_content(g) =~= le_i32_bytes(code) + (enc_parted_base(p.base, p.part_types)
        + enc_opt_measure(p.z) + enc_opt_measure(p.m)));
}

/// The round-trip law: when decoding a record's content succeeds, the
/// whole declared content was present, and re-encoding the decoded
/// geometry reproduces those content bytes exactly.
pub proof fn lemma_content_roundtrip(
    s: Seq<u8>,
    c0: int,
    declared: int,
    avail: int,
    file_shape: crate::shape::ShapeType,
    cfg: Config,
    g: GeometryV,
)
    requires
        0 <= c0,
        c0 + avail <= s.len(),
        avail <= declared,
        spec_decode_content(s, c0, declared, avail, file_shape, cfg) == Ok::<
            GeometryV,
            DecodeError,
        >(g),
    ensures
        avail == declared,
        spec_encode_content(g) =~= s.subrange(c0, c0 + declared),
{
    let code = le_i32_at(s, c0);
    match crate::shape::spec_shape_of_code(code) {
        None => {
            assert(false);
        },
        Some(st) => {
            match st {
                crate::shape::ShapeType::NullShape | crate::shape::ShapeType::Point
                    | crate::shape::ShapeType::PointM | crate::shape::ShapeType::PointZ => {
                    lemma_rt_point_family(s, c0, declared, avail, file_shape, cfg, g, st);
                },
                crate::shape::ShapeType::MultiPoint | crate::shape::ShapeType::MultiPointM
                    | crate::shape::ShapeType::MultiPointZ => {
                    lemma_rt_multipoint_family(s, c0, declared, avail, file_shape, cfg, g, st);
                },
                _ => {
                    lemma_rt_parted_family(s, c0, declared, avail, file_shape, cfg, g, st);
                },
            }
        },
    }
}


// ----------------------------------------------------------------------------
// Executable encoder.
// ----------------------------------------------------------------------------

proof fn lemma_enc_points_push(ps: Seq<PointXY>, p: PointXY)
    ensures
        enc_points(ps.push(p)) =~= enc_points(ps) + le_u64_bytes(p.x) + le_u64_bytes(p.y),
    decreases ps.len(),
{
    if ps.len() == 0 {
        assert(ps.push(p).drop_first() =~= Seq::<PointXY>::empty());
        assert(ps =~= Seq::<PointXY>::empty());
    } else {
        assert(ps.push(p).drop_first() =~= ps.drop_first().push(p));
        lemma_enc_points_push(ps.drop_first(), p);
    }
}

proof fn lemma_enc_u64s_push(vs: Seq<u64>, v: u64)
    ensures
        enc_u64s(vs.push(v)) =~= enc_u64s(vs) + le_u64_bytes(v),
    decreases vs.len(),
{
    if vs.len() == 0 {
        assert(vs.push(v).drop_first() =~= Seq::<u64>::empty());
        assert(vs =~= Seq::<u64>::empty());
    } else {
        assert(vs.push(v).drop_first() =~= vs.drop_first().push(v));
        lemma_enc_u64s_push(vs.drop_first(), v);
    }
}

proof fn lemma_enc_i32s_push(vs: Seq<i32>, v: i32)
    ensures
        enc_i32s(vs.push(v)) =~= enc_i32s(vs) + le_i32_bytes(v),
    decreases vs.len(),
{
    if vs.len() == 0 {
        assert(vs.push(v).drop_first() =~= Seq::<i32>::empty());
        assert(vs =~= Seq::<i32>::empty());
    } else {
        assert(vs.push(v).drop_first() =~= vs.drop_first().push(v));
        lemma_enc_i32s_push(vs.drop_first(), v);
    }
}

proof fn lemma_enc_parts_push(ps: Seq<usize>, v: usize)
    ensures
        enc_parts(ps.push(v)) =~= enc_parts(ps) + le_i32_bytes(v as i32),
    decreases ps.len(),
{
    if ps.len() == 0 {
        assert(ps.push(v).drop_first() =~= Seq::<usize>::empty());
        assert(ps =~= Seq::<usize>::empty());
    } else {
        assert(ps.push(v).drop_first() =~= ps.drop_first().push(v));
        lemma_enc_parts_push(ps.drop_first(), v);
    }
}

/// Appends the bytes of a point array.
fn push_points(out: &mut Vec<u8>, ps: &Vec<PointXY>)
    ensures
        final(out)@ =~= old(out)@ + enc_points(ps@),
{
    let n = ps.len();
    let mut i: usize = 0;
    while i < n
        invariant
            i <= n,
            n == ps@.len(),
            out@ =~= old(out)@ + enc_points(ps@.take(i as int)),
        decreases n - i,
    {
        let p = ps[i];
        push_le_u64(out, p.x);
        push_le_u64(out, p.y);
        proof {
            assert(ps@.take(i + 1) =~= ps@.take(i as int).push(ps@[i as int]));
            lemma_enc_points_push(ps@.take(i as int), ps@[i as int]);
        }
        i = i + 1;
    }
    proof {
        assert(ps@.take(n as int) =~= ps@);
    }
}

/// Appends the bytes of an array of little-endian 64-bit values.
fn push_u64s(out: &mut Vec<u8>, vs: &Vec<u64>)
    ensures
        final(out)@ =~= old(out)@ + enc_u64s(vs@),
{
    let n = vs.len();
    let mut i: usize = 0;
    while i < n
        invariant
            i <= n,
            n == vs@.len(),
            out@ =~= old(out)@ + enc_u64s(vs@.take(i as int)),
        decreases n - i,
    {
        push_le_u64(out, vs[i]);
        proof {
            assert(vs@.take(i + 1) =~= vs@.take(i as int).push(vs@[i as int]));
            lemma_enc_u64s_push(vs@.take(i as int), vs@[i as int]);
        }
        i = i + 1;
    }
    proof {
        assert(vs@.take(n as int) =~= vs@);
    }
}

/// Appends the bytes of an array of little-endian 32-bit values.
fn push_i32s(out: &mut Vec<u8>, vs: &Vec<i32>)
    ensures
        final(out)@ =~= old(out)@ + enc_i32s(vs@),
{
    let n = vs.len();
    let mut i: usize = 0;
    while i < n
        invariant
            i <= n,
            n == vs@.len(),
            out@ =~= old(out)@ + enc_i32s(vs@.take(i as int)),
        decreases n - i,
    {
        push_le_i32(out, vs[i]);
        proof {
            assert(vs@.take(i + 1) =~= vs@.take(i as int).push(vs@[i as int]));
            lemma_enc_i32s_push(vs@.take(i as int), vs@[i as int]);
        }
        i = i + 1;
    }
    proof {
        assert(vs@.take(n as int) =~= vs@);
    }
}

/// Appends the bytes of a part-start array.
fn push_parts(out: &mut Vec<u8>, ps: &Vec<usize>)
    ensures
        final(out)@ =~= old(out)@ + enc_parts(ps@),
{
    let n = ps.len();
    let mut i: usize = 0;
    while i < n
        invariant
            i <= n,
            n == ps@.len(),
            out@ =~= old(out)@ + enc_parts(ps@.take(i as int)),
        decreases n - i,
    {
        push_le_i32(out, ps[i] as i32);
        proof {
            assert(ps@.take(i + 1) =~= ps@.take(i as int).push(ps@[i as int]));
            lemma_enc_parts_push(ps@.take(i as int), ps@[i as int]);
        }
        i = i + 1;
    }
    proof {
        assert(ps@.take(n as int) =~= ps@);
    }
}

/// Appends the bytes of a planar bounding box.
fn push_bbox2(out: &mut Vec<u8>, b: &BoundingBox2D)
    ensures
        final(out)@ =~= old(out)@ + enc_bbox2(*b),
{
    push_le_u64(out, b.x_min);
    push_le_u64(out, b.y_min);
    push_le_u64(out, b.x_max);
    push_le_u64(out, b.y_max);
}

/// Appends the bytes of a measure (or Z) block.
fn push_measure(out: &mut Vec<u8>, m: &MeasureBlock)
    ensures
        final(out)@ =~= old(out)@ + enc_measure(m@),
{
    push_le_u64(out, m.min);
    push_le_u64(out, m.max);
    push_u64s(out, &m.values);
}

/// Appends the bytes of an optional measure block.
fn push_opt_measure(out: &mut Vec<u8>, m: &Option<MeasureBlock>)
    ensures
        final(out)@ =~= old(out)@ + enc_opt_measure(crate::geometry::opt_measure_view(*m)),
{
    match m {
        Some(b) => push_measure(out, b),
        None => (),
    }
}

/// Appends a multipoint-family base.
fn push_multipoint_base(out: &mut Vec<u8>, b: &crate::geometry::MultiPointGeom)
    ensures
        final(out)@ =~= old(out)@ + enc_multipoint_base(b@),
{
    push_bbox2(out, &b.bbox);
    push_le_i32(out, b.points.len() as i32);
    push_points(out, &b.points);
}

/// Appends a parted-family base; `types` is the multipatch part-type array.
fn push_parted_base(out: &mut Vec<u8>, b: &crate::geometry::PartedGeom, types: Option<&Vec<i32>>)
    ensures
        final(out)@ =~= old(out)@ + enc_parted_base(
            b@,
            match types {
                Some(ts) => ts@,
                None => Seq::<i32>::empty(),
            },
        ),
{
    push_bbox2(out, &b.bbox);
    push_le_i32(out, b.parts.len() as i32);
    push_le_i32(out, b.points.len() as i32);
    push_parts(out, &b.parts);
    match types {
        Some(ts) => push_i32s(out, ts),
        None => {
            proof {
                assert(enc_i32s(Seq::<i32>::empty()) =~= Seq::<u8>::empty());
            }
        },
    }
    push_points(out, &b.points);
}

/// Encodes a geometry value as record content bytes: the shape-type code
/// followed by the shape's layout.  Together with `lemma_content_roundtrip`
/// this reproduces, byte for byte, the content any successful decode came
/// from.
pub fn encode_geometry(g: &Geometry) -> (r: Vec<u8>)
    ensures
        r@ == spec_encode_content(g@),
{
    let mut out: Vec<u8> = Vec::new();
    let code = g.shape_type().code();
    push_le_i32(&mut out, code);
    match g {
        Geometry::Null => (),
        Geometry::Point(p) => {
            push_le_u64(&mut out, p.x);
            push_le_u64(&mut out, p.y);
        },
        Geometry::PointM { point, m } => {
            push_le_u64(&mut out, point.x);
            push_le_u64(&mut out, point.y);
            push_le_u64(&mut out, *m);
        },
        Geometry::PointZ { point, z, m } => {
            push_le_u64(&mut out, point.x);
            push_le_u64(&mut out, point.y);
            push_le_u64(&mut out, *z);
            match m {
                Some(mv) => push_le_u64(&mut out, *mv),
                None => (),
            }
        },
        Geometry::MultiPoint(b) => {
            push_multipoint_base(&mut out, b);
        },
        Geometry::MultiPointM { base, m } => {
            push_multipoint_base(&mut out, base);
            push_measure(&mut out, m);
        },
        Geometry::MultiPointZ { base, z, m } => {
            push_multipoint_base(&mut out, base);
            push_measure(&mut out, z);
            push_opt_measure(&mut out, m);
        },
        Geometry::PolyLine(b) => {
            push_parted_base(&mut out, b, None);
        },
        Geometry::PolyLineM { base, m } => {
            push_parted_base(&mut out, base, None);
            push_measure(&mut out, m);
        },
        Geometry::PolyLineZ { base, z, m } => {
            push_parted_base(&mut out, base, None);
            push_measure(&mut out, z);
            push_opt_measure(&mut out, m);
        },
        Geometry::Polygon(b) => {
            push_parted_base(&mut out, b, None);
        },
        Geometry::PolygonM { base, m } => {
            push_parted_base(&mut out, base, None);
            push_measure(&mut out, m);
        },
        Geometry::PolygonZ { base, z, m } => {
            push_parted_base(&mut out, base, None);
            push_measure(&mut out, z);
            push_opt_measure(&mut out, m);
        },
        Geometry::MultiPatch { base, part_types, z, m } => {
            push_parted_base(&mut out, base, Some(part_types));
            push_measure(&mut out, z);
            push_opt_measure(&mut out, m);
        },
    }
    proof {
        assert(out@ =~= spec_encode_content(g@));
    }
    out
}

/// The bytes of a whole framed record: big-endian record number and
/// content length (in 16-bit words), then the content.
pub open spec fn spec_encode_record(record_number: i32, g: GeometryV) -> Seq<u8> {
    be_i32_bytes(record_number) + be_i32_bytes((spec_encode_content(g).len() / 2) as i32)
        + spec_encode_content(g)
}

/// Encodes a whole framed record, or `None` when the content is too long
/// for the format's 32-bit word count.
pub fn encode_record(record_number: i32, g: &Geometry) -> (r: Option<Vec<u8>>)
    ensures
        match r {
            Some(v) => spec_encode_content(g@).len() <= 0xfffffffe && v@ == spec_encode_record(
                record_number,
                g@,
            ),
            None => spec_encode_content(g@).len() > 0xfffffffe,
        },
{
    let mut content = encode_geometry(g);
    let len = content.len();
    if len > 0xfffffffe {
        return None;
    }
    let words = (len / 2) as i32;
    let mut out: Vec<u8> = Vec::new();
    push_be_i32(&mut out, record_number);
    push_be_i32(&mut out, words);
    out.append(&mut content);
    proof {
        assert(out@ =~= spec_encode_record(record_number, g@));
    }
    Some(out)
}


/// The record-level round-trip law: when a whole record decodes to a
/// value, re-encoding it — framing prefix included — reproduces the
/// record's bytes from its first framing byte to the next record boundary.
#[verifier::rlimit(100)]
#[verifier::spinoff_prover]
pub proof fn lemma_record_roundtrip(
    s: Seq<u8>,
    pos: int,
    end: int,
    file_shape: crate::shape::ShapeType,
    cfg: Config,
    rec: RecordV,
    next: usize,
)
    requires
        0 <= pos <= end,
        end <= s.len(),
        end <= usize::MAX,
        spec_decode_record(s, pos, end, file_shape, cfg) == (RecordOutcomeV::Value {
            record: rec,
            next,
        }),
    ensures
        next == pos + 8 + 2 * (rec.content_length as int),
        spec_encode_record(rec.record_number, rec.geometry) =~= s.subrange(pos, next as int),
{
    let clen = be_i32_at(s, pos + 4);
    let declared = 2 * (clen as int);
    let c0 = pos + 8;
    let avail = if end - c0 < declared {
        end - c0
    } else {
        declared
    };
    assert(end - pos >= 8);
    assert(clen >= 0);
    assert(rec.record_number == be_i32_at(s, pos));
    assert(rec.content_length == clen);
    assert(next as int == c0 + avail);
    assert(spec_decode_content(s, c0, declared, avail, file_shape, cfg) == Ok::<
        GeometryV,
        DecodeError,
    >(rec.geometry));
    lemma_content_roundtrip(s, c0, declared, avail, file_shape, cfg, rec.geometry);
    lemma_be_i32_roundtrip(s, pos);
    lemma_be_i32_roundtrip(s, pos + 4);
    assert(spec_encode_content(rec.geometry).len() == declared);
    assert((spec_encode_content(rec.geometry).len() / 2) as i32 == clen);
    lemma_subrange_concat(s, pos, pos + 4, pos + 8);
    lemma_subrange_concat(s, pos, pos + 8, pos + 8 + declared);
    assert(be_i32_bytes(rec.record_number) + be_i32_bytes(clen) =~= s.subrange(pos, pos + 8));
}

} // verus!
