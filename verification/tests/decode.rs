//! Header and single-record decoding against hand-built byte buffers.

use shpdec::error::{Config, DecodeError};
use shpdec::geometry::{Geometry, PointXY};
use shpdec::header::decode_header;
use shpdec::record::{decode_record, decode_record_content, RecordOutcome};
use shpdec::shape::ShapeType;

/// Builds the 100-byte header: big-endian magic and file length,
/// little-endian version, shape code and bounding box.
fn header_bytes(file_code: i32, file_length: i32, version: i32, shape: i32, bbox: [f64; 8]) -> Vec<u8> {
    let mut v = Vec::new();
    v.extend_from_slice(&file_code.to_be_bytes());
    v.extend_from_slice(&[0u8; 20]);
    v.extend_from_slice(&file_length.to_be_bytes());
    v.extend_from_slice(&version.to_le_bytes());
    v.extend_from_slice(&shape.to_le_bytes());
    for c in bbox.iter() {
        v.extend_from_slice(&c.to_le_bytes());
    }
    assert_eq!(v.len(), 100);
    v
}

fn record_bytes(record_number: i32, content: &[u8]) -> Vec<u8> {
    let mut v = Vec::new();
    v.extend_from_slice(&record_number.to_be_bytes());
    v.extend_from_slice(&((content.len() / 2) as i32).to_be_bytes());
    v.extend_from_slice(content);
    v
}

fn bits(x: f64) -> u64 {
    x.to_bits()
}

#[test]
fn header_scenario_decodes_every_field() {
    let data = header_bytes(9994, 50, 1000, 1, [0.0, 0.0, 10.0, 10.0, 0.0, 0.0, 0.0, 0.0]);
    let h = decode_header(&data, &Config::default()).unwrap();
    assert_eq!(h.file_code, 9994);
    assert_eq!(h.file_length, 50);
    assert_eq!(h.version, 1000);
    assert_eq!(h.shape_type, ShapeType::Point);
    assert_eq!(h.bounding_box.x_min, bits(0.0));
    assert_eq!(h.bounding_box.y_min, bits(0.0));
    assert_eq!(h.bounding_box.x_max, bits(10.0));
    assert_eq!(h.bounding_box.y_max, bits(10.0));
    assert_eq!(h.bounding_box.m_max, bits(0.0));
}

#[test]
fn header_bad_magic_is_bad_magic() {
    let data = header_bytes(1234, 50, 1000, 1, [0.0; 8]);
    assert_eq!(decode_header(&data, &Config::default()), Err(DecodeError::BadMagic));
}

#[test]
fn header_bad_magic_wins_over_truncation() {
    // Only the four magic bytes are present, and they are wrong.
    let data = vec![0u8, 0, 0, 1];
    assert_eq!(decode_header(&data, &Config::default()), Err(DecodeError::BadMagic));
}

#[test]
fn header_truncated() {
    let data = vec![0u8, 0];
    assert_eq!(decode_header(&data, &Config::default()), Err(DecodeError::TruncatedInput));
    let data = header_bytes(9994, 50, 1000, 1, [0.0; 8]);
    let cut = data[..99].to_vec();
    assert_eq!(decode_header(&cut, &Config::default()), Err(DecodeError::TruncatedInput));
}

#[test]
fn header_truncated_mid_bbox() {
    let data = header_bytes(9994, 50, 1000, 1, [0.0; 8]);
    let cut = data[..60].to_vec();
    assert_eq!(decode_header(&cut, &Config::default()), Err(DecodeError::TruncatedInput));
}

#[test]
fn header_version_checked_only_in_strict_mode() {
    let data = header_bytes(9994, 50, 1007, 1, [0.0; 8]);
    let h = decode_header(&data, &Config::default()).unwrap();
    assert_eq!(h.version, 1007);
    let strict = Config { strict_version: true, ..Config::default() };
    assert_eq!(decode_header(&data, &strict), Err(DecodeError::UnsupportedVersion));
}

#[test]
fn header_unknown_shape_code() {
    let data = header_bytes(9994, 50, 1000, 99, [0.0; 8]);
    assert_eq!(decode_header(&data, &Config::default()), Err(DecodeError::UnknownShapeType(99)));
}

#[test]
fn shape_type_codes_map_both_ways() {
    let table = [
        (0, ShapeType::NullShape),
        (1, ShapeType::Point),
        (3, ShapeType::PolyLine),
        (5, ShapeType::Polygon),
        (8, ShapeType::MultiPoint),
        (11, ShapeType::PointZ),
        (13, ShapeType::PolyLineZ),
        (15, ShapeType::PolygonZ),
        (18, ShapeType::MultiPointZ),
        (21, ShapeType::PointM),
        (23, ShapeType::PolyLineM),
        (25, ShapeType::PolygonM),
        (28, ShapeType::MultiPointM),
        (31, ShapeType::MultiPatch),
    ];
    for (code, shape) in table.iter() {
        assert_eq!(ShapeType::from_i32(*code), Some(*shape));
        assert_eq!(shape.code(), *code);
    }
    assert_eq!(ShapeType::from_i32(2), None);
    assert_eq!(ShapeType::from_i32(-1), None);
    assert_eq!(ShapeType::from_i32(99), None);
}

#[test]
fn null_record_consumes_twelve_bytes() {
    let content = 0i32.to_le_bytes().to_vec();
    let rec = record_bytes(1, &content);
    assert_eq!(rec.len(), 12);
    match decode_record(&rec, 0, rec.len(), ShapeType::Point, &Config::default()) {
        RecordOutcome::Value { record, next } => {
            assert_eq!(record.record_number, 1);
            assert_eq!(record.content_length, 2);
            assert_eq!(record.geometry, Geometry::Null);
            assert_eq!(next, 12);
        }
        _ => panic!("expected a decoded record"),
    }
}

#[test]
fn point_record_scenario() {
    let mut content = 1i32.to_le_bytes().to_vec();
    content.extend_from_slice(&1.5f64.to_le_bytes());
    content.extend_from_slice(&2.5f64.to_le_bytes());
    let rec = record_bytes(1, &content);
    assert_eq!(rec[4..8], 10i32.to_be_bytes());
    match decode_record(&rec, 0, rec.len(), ShapeType::Point, &Config::default()) {
        RecordOutcome::Value { record, next } => {
            assert_eq!(record.geometry, Geometry::Point(PointXY { x: bits(1.5), y: bits(2.5) }));
            assert_eq!(next, rec.len());
        }
        _ => panic!("expected a decoded record"),
    }
}

fn polyline_content(parts: &[i32], points: &[(f64, f64)]) -> Vec<u8> {
    let mut c = 3i32.to_le_bytes().to_vec();
    for b in [0.0f64, 0.0, 10.0, 10.0].iter() {
        c.extend_from_slice(&b.to_le_bytes());
    }
    c.extend_from_slice(&(parts.len() as i32).to_le_bytes());
    c.extend_from_slice(&(points.len() as i32).to_le_bytes());
    for p in parts.iter() {
        c.extend_from_slice(&p.to_le_bytes());
    }
    for (x, y) in points.iter() {
        c.extend_from_slice(&x.to_le_bytes());
        c.extend_from_slice(&y.to_le_bytes());
    }
    c
}

#[test]
fn polyline_single_part_spans_all_points() {
    let content = polyline_content(&[0], &[(1.0, 2.0), (3.0, 4.0), (5.0, 6.0)]);
    let rec = record_bytes(1, &content);
    match decode_record(&rec, 0, rec.len(), ShapeType::PolyLine, &Config::default()) {
        RecordOutcome::Value { record, .. } => match record.geometry {
            Geometry::PolyLine(g) => {
                assert_eq!(g.parts, vec![0usize]);
                assert_eq!(g.points.len(), 3);
                assert_eq!(g.points[0], PointXY { x: bits(1.0), y: bits(2.0) });
                assert_eq!(g.points[2], PointXY { x: bits(5.0), y: bits(6.0) });
                assert_eq!(g.bbox.x_max, bits(10.0));
            }
            _ => panic!("expected a polyline"),
        },
        _ => panic!("expected a decoded record"),
    }
}

#[test]
fn polyline_part_index_out_of_range() {
    let content = polyline_content(&[5], &[(1.0, 2.0), (3.0, 4.0), (5.0, 6.0)]);
    let rec = record_bytes(1, &content);
    match decode_record(&rec, 0, rec.len(), ShapeType::PolyLine, &Config::default()) {
        RecordOutcome::Recoverable { error, next } => {
            assert_eq!(error.kind, DecodeError::InvalidPartIndex);
            assert_eq!(error.offset, 0);
            assert_eq!(next, rec.len());
        }
        _ => panic!("expected a recoverable error"),
    }
}

#[test]
fn polyline_part_indices_must_not_decrease() {
    let content = polyline_content(&[2, 1], &[(1.0, 2.0), (3.0, 4.0), (5.0, 6.0)]);
    let rec = record_bytes(1, &content);
    match decode_record(&rec, 0, rec.len(), ShapeType::PolyLine, &Config::default()) {
        RecordOutcome::Recoverable { error, .. } => {
            assert_eq!(error.kind, DecodeError::InvalidPartIndex);
        }
        _ => panic!("expected a recoverable error"),
    }
}

#[test]
fn decoded_part_indices_are_valid_and_sorted() {
    let content = polyline_content(&[0, 1, 1], &[(1.0, 2.0), (3.0, 4.0), (5.0, 6.0)]);
    let rec = record_bytes(1, &content);
    match decode_record(&rec, 0, rec.len(), ShapeType::PolyLine, &Config::default()) {
        RecordOutcome::Value { record, .. } => match record.geometry {
            Geometry::PolyLine(g) => {
                for w in g.parts.windows(2) {
                    assert!(w[0] <= w[1]);
                }
                for p in g.parts.iter() {
                    assert!(*p < g.points.len());
                }
            }
            _ => panic!("expected a polyline"),
        },
        _ => panic!("expected a decoded record"),
    }
}

#[test]
fn framing_mismatch_on_short_declared_length() {
    // A point body needs 20 content bytes; declare only 16.
    let mut content = 1i32.to_le_bytes().to_vec();
    content.extend_from_slice(&1.5f64.to_le_bytes());
    content.extend_from_slice(&[0u8; 4]);
    let rec = record_bytes(1, &content);
    match decode_record(&rec, 0, rec.len(), ShapeType::Point, &Config::default()) {
        RecordOutcome::Recoverable { error, next } => {
            assert_eq!(error.kind, DecodeError::FramingMismatch);
            // The stream still advances by the declared length.
            assert_eq!(next, 8 + 16);
        }
        _ => panic!("expected a recoverable error"),
    }
}

#[test]
fn framing_mismatch_on_long_declared_length() {
    // A null body is exactly the shape code; declare four extra bytes.
    let mut content = 0i32.to_le_bytes().to_vec();
    content.extend_from_slice(&[0u8; 4]);
    let rec = record_bytes(1, &content);
    match decode_record(&rec, 0, rec.len(), ShapeType::Point, &Config::default()) {
        RecordOutcome::Recoverable { error, .. } => {
            assert_eq!(error.kind, DecodeError::FramingMismatch);
        }
        _ => panic!("expected a recoverable error"),
    }
}

#[test]
fn unknown_record_shape_code() {
    let content = 99i32.to_le_bytes().to_vec();
    let rec = record_bytes(1, &content);
    match decode_record(&rec, 0, rec.len(), ShapeType::Point, &Config::default()) {
        RecordOutcome::Recoverable { error, next } => {
            assert_eq!(error.kind, DecodeError::UnknownShapeType(99));
            assert_eq!(next, rec.len());
        }
        _ => panic!("expected a recoverable error"),
    }
}

#[test]
fn record_shape_must_match_file_shape_unless_null() {
    let content = polyline_content(&[0], &[(1.0, 2.0)]);
    let rec = record_bytes(1, &content);
    // A polyline record in a file declared as points is invalid in context.
    match decode_record(&rec, 0, rec.len(), ShapeType::Point, &Config::default()) {
        RecordOutcome::Recoverable { error, .. } => {
            assert_eq!(error.kind, DecodeError::UnsupportedShapeType(3));
        }
        _ => panic!("expected a recoverable error"),
    }
    // The same record is fine in a polyline file.
    match decode_record(&rec, 0, rec.len(), ShapeType::PolyLine, &Config::default()) {
        RecordOutcome::Value { .. } => {}
        _ => panic!("expected a decoded record"),
    }
}

#[test]
fn limit_exceeded_on_excessive_point_count() {
    let content = polyline_content(&[0], &[(1.0, 2.0), (3.0, 4.0), (5.0, 6.0)]);
    let rec = record_bytes(1, &content);
    let cfg = Config { max_points: 2, ..Config::default() };
    match decode_record(&rec, 0, rec.len(), ShapeType::PolyLine, &cfg) {
        RecordOutcome::Recoverable { error, .. } => {
            assert_eq!(error.kind, DecodeError::LimitExceeded);
        }
        _ => panic!("expected a recoverable error"),
    }
}

#[test]
fn limit_exceeded_on_negative_count() {
    // num_points = -1.
    let mut c = 8i32.to_le_bytes().to_vec();
    for b in [0.0f64, 0.0, 0.0, 0.0].iter() {
        c.extend_from_slice(&b.to_le_bytes());
    }
    c.extend_from_slice(&(-1i32).to_le_bytes());
    let rec = record_bytes(1, &c);
    match decode_record(&rec, 0, rec.len(), ShapeType::MultiPoint, &Config::default()) {
        RecordOutcome::Recoverable { error, .. } => {
            assert_eq!(error.kind, DecodeError::LimitExceeded);
        }
        _ => panic!("expected a recoverable error"),
    }
}

#[test]
fn truncated_record_body() {
    // Declared length is right for a point, but the buffer stops short.
    let mut content = 1i32.to_le_bytes().to_vec();
    content.extend_from_slice(&1.5f64.to_le_bytes());
    content.extend_from_slice(&2.5f64.to_le_bytes());
    let rec = record_bytes(1, &content);
    let cut = rec[..20].to_vec();
    match decode_record(&cut, 0, cut.len(), ShapeType::Point, &Config::default()) {
        RecordOutcome::Recoverable { error, .. } => {
            assert_eq!(error.kind, DecodeError::TruncatedInput);
        }
        _ => panic!("expected a recoverable error"),
    }
}

#[test]
fn truncated_record_prefix_is_fatal() {
    let rec = vec![0u8, 0, 0, 1, 0];
    match decode_record(&rec, 0, rec.len(), ShapeType::Point, &Config::default()) {
        RecordOutcome::Fatal { error } => {
            assert_eq!(error.kind, DecodeError::TruncatedInput);
        }
        _ => panic!("expected a fatal error"),
    }
}

#[test]
fn point_z_trailing_measure_is_optional() {
    // Without the trailing measure: 28 content bytes.
    let mut c = 11i32.to_le_bytes().to_vec();
    c.extend_from_slice(&1.0f64.to_le_bytes());
    c.extend_from_slice(&2.0f64.to_le_bytes());
    c.extend_from_slice(&3.0f64.to_le_bytes());
    let rec = record_bytes(1, &c);
    match decode_record(&rec, 0, rec.len(), ShapeType::PointZ, &Config::default()) {
        RecordOutcome::Value { record, .. } => {
            assert_eq!(
                record.geometry,
                Geometry::PointZ { point: PointXY { x: bits(1.0), y: bits(2.0) }, z: bits(3.0), m: None }
            );
        }
        _ => panic!("expected a decoded record"),
    }
    // With the trailing measure: 36 content bytes.
    c.extend_from_slice(&4.0f64.to_le_bytes());
    let rec = record_bytes(1, &c);
    match decode_record(&rec, 0, rec.len(), ShapeType::PointZ, &Config::default()) {
        RecordOutcome::Value { record, .. } => {
            assert_eq!(
                record.geometry,
                Geometry::PointZ {
                    point: PointXY { x: bits(1.0), y: bits(2.0) },
                    z: bits(3.0),
                    m: Some(bits(4.0)),
                }
            );
        }
        _ => panic!("expected a decoded record"),
    }
}

#[test]
fn content_decoder_rejects_tiny_framing() {
    let data = vec![0u8; 8];
    assert_eq!(
        decode_record_content(&data, 0, 2, 2, ShapeType::Point, &Config::default()),
        Err(DecodeError::FramingMismatch)
    );
}

#[test]
fn multipatch_keeps_part_type_codes() {
    // Two parts: a triangle strip (0) and an outer ring (2), with a Z block.
    let mut c = 31i32.to_le_bytes().to_vec();
    for b in [0.0f64, 0.0, 10.0, 10.0].iter() {
        c.extend_from_slice(&b.to_le_bytes());
    }
    c.extend_from_slice(&2i32.to_le_bytes());
    c.extend_from_slice(&4i32.to_le_bytes());
    c.extend_from_slice(&0i32.to_le_bytes());
    c.extend_from_slice(&2i32.to_le_bytes());
    c.extend_from_slice(&0i32.to_le_bytes());
    c.extend_from_slice(&2i32.to_le_bytes());
    for (x, y) in [(1.0f64, 2.0f64), (3.0, 4.0), (5.0, 6.0), (7.0, 8.0)].iter() {
        c.extend_from_slice(&x.to_le_bytes());
        c.extend_from_slice(&y.to_le_bytes());
    }
    c.extend_from_slice(&0.0f64.to_le_bytes());
    c.extend_from_slice(&9.0f64.to_le_bytes());
    for z in [1.0f64, 2.0, 3.0, 9.0].iter() {
        c.extend_from_slice(&z.to_le_bytes());
    }
    let rec = record_bytes(1, &c);
    match decode_record(&rec, 0, rec.len(), ShapeType::MultiPatch, &Config::default()) {
        RecordOutcome::Value { record, .. } => match record.geometry {
            Geometry::MultiPatch { base, part_types, z, m } => {
                assert_eq!(part_types, vec![0, 2]);
                assert_eq!(base.parts, vec![0usize, 2]);
                assert_eq!(base.points.len(), 4);
                assert_eq!(z.values.len(), 4);
                assert_eq!(z.max, bits(9.0));
                assert!(m.is_none());
            }
            _ => panic!("expected a multipatch"),
        },
        _ => panic!("expected a decoded record"),
    }
}

#[test]
fn measured_variant_requires_its_measure_block() {
    // A MultiPointM body whose framing covers only the unmeasured layout.
    let mut c = 28i32.to_le_bytes().to_vec();
    for b in [0.0f64, 0.0, 10.0, 10.0].iter() {
        c.extend_from_slice(&b.to_le_bytes());
    }
    c.extend_from_slice(&1i32.to_le_bytes());
    c.extend_from_slice(&1.0f64.to_le_bytes());
    c.extend_from_slice(&2.0f64.to_le_bytes());
    let rec = record_bytes(1, &c);
    match decode_record(&rec, 0, rec.len(), ShapeType::MultiPointM, &Config::default()) {
        RecordOutcome::Recoverable { error, .. } => {
            assert_eq!(error.kind, DecodeError::FramingMismatch);
        }
        _ => panic!("expected a recoverable error"),
    }
}
