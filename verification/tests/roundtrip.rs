//! Byte-exact round trips: decoding record content and re-encoding the
//! geometry reproduces the original bytes.

use shpdec::encode::{encode_geometry, encode_record};
use shpdec::error::Config;
use shpdec::geometry::{Geometry, MeasureBlock, MultiPointGeom, PartedGeom, PointXY, BoundingBox2D};
use shpdec::record::{decode_record, RecordOutcome};
use shpdec::shape::ShapeType;

fn bits(x: f64) -> u64 {
    x.to_bits()
}

fn bbox(a: f64, b: f64, c: f64, d: f64) -> BoundingBox2D {
    BoundingBox2D { x_min: bits(a), y_min: bits(b), x_max: bits(c), y_max: bits(d) }
}

fn pt(x: f64, y: f64) -> PointXY {
    PointXY { x: bits(x), y: bits(y) }
}

/// Decodes `content` as a record body and checks that re-encoding the
/// geometry reproduces `content` byte for byte.
fn check_roundtrip(content: &[u8], file_shape: ShapeType) {
    let rec_bytes = {
        let mut v = Vec::new();
        v.extend_from_slice(&1i32.to_be_bytes());
        v.extend_from_slice(&((content.len() / 2) as i32).to_be_bytes());
        v.extend_from_slice(content);
        v
    };
    match decode_record(&rec_bytes, 0, rec_bytes.len(), file_shape, &Config::default()) {
        RecordOutcome::Value { record, .. } => {
            let re = encode_geometry(&record.geometry);
            assert_eq!(re.as_slice(), content);
        }
        _ => panic!("the test input should decode"),
    }
}

#[test]
fn roundtrip_null() {
    check_roundtrip(&0i32.to_le_bytes(), ShapeType::Point);
}

#[test]
fn roundtrip_point() {
    let mut c = 1i32.to_le_bytes().to_vec();
    c.extend_from_slice(&1.5f64.to_le_bytes());
    c.extend_from_slice(&(-2.5f64).to_le_bytes());
    check_roundtrip(&c, ShapeType::Point);
}

#[test]
fn roundtrip_point_m_and_z() {
    let mut c = 21i32.to_le_bytes().to_vec();
    c.extend_from_slice(&1.5f64.to_le_bytes());
    c.extend_from_slice(&2.5f64.to_le_bytes());
    c.extend_from_slice(&7.0f64.to_le_bytes());
    check_roundtrip(&c, ShapeType::PointM);

    let mut c = 11i32.to_le_bytes().to_vec();
    c.extend_from_slice(&1.5f64.to_le_bytes());
    c.extend_from_slice(&2.5f64.to_le_bytes());
    c.extend_from_slice(&3.5f64.to_le_bytes());
    check_roundtrip(&c, ShapeType::PointZ);
    c.extend_from_slice(&9.5f64.to_le_bytes());
    check_roundtrip(&c, ShapeType::PointZ);
}

fn multipoint_content(code: i32, points: &[(f64, f64)], blocks: &[&[f64]]) -> Vec<u8> {
    let mut c = code.to_le_bytes().to_vec();
    for b in [0.0f64, 0.0, 10.0, 10.0].iter() {
        c.extend_from_slice(&b.to_le_bytes());
    }
    c.extend_from_slice(&(points.len() as i32).to_le_bytes());
    for (x, y) in points.iter() {
        c.extend_from_slice(&x.to_le_bytes());
        c.extend_from_slice(&y.to_le_bytes());
    }
    for block in blocks.iter() {
        for v in block.iter() {
            c.extend_from_slice(&v.to_le_bytes());
        }
    }
    c
}

#[test]
fn roundtrip_multipoint_family() {
    let pts = [(1.0, 2.0), (3.0, 4.0)];
    check_roundtrip(&multipoint_content(8, &pts, &[]), ShapeType::MultiPoint);
    // M variant: m_min, m_max, then one m per point.
    check_roundtrip(
        &multipoint_content(28, &pts, &[&[0.0, 9.0, 5.0, 9.0]]),
        ShapeType::MultiPointM,
    );
    // Z variant without measures, then with them.
    check_roundtrip(
        &multipoint_content(18, &pts, &[&[0.0, 2.0, 1.0, 2.0]]),
        ShapeType::MultiPointZ,
    );
    check_roundtrip(
        &multipoint_content(18, &pts, &[&[0.0, 2.0, 1.0, 2.0], &[0.0, 9.0, 5.0, 9.0]]),
        ShapeType::MultiPointZ,
    );
}

fn parted_content(
    code: i32,
    parts: &[i32],
    types: Option<&[i32]>,
    points: &[(f64, f64)],
    blocks: &[&[f64]],
) -> Vec<u8> {
    let mut c = code.to_le_bytes().to_vec();
    for b in [0.0f64, 0.0, 10.0, 10.0].iter() {
        c.extend_from_slice(&b.to_le_bytes());
    }
    c.extend_from_slice(&(parts.len() as i32).to_le_bytes());
    c.extend_from_slice(&(points.len() as i32).to_le_bytes());
    for p in parts.iter() {
        c.extend_from_slice(&p.to_le_bytes());
    }
    if let Some(ts) = types {
        for t in ts.iter() {
            c.extend_from_slice(&t.to_le_bytes());
        }
    }
    for (x, y) in points.iter() {
        c.extend_from_slice(&x.to_le_bytes());
        c.extend_from_slice(&y.to_le_bytes());
    }
    for block in blocks.iter() {
        for v in block.iter() {
            c.extend_from_slice(&v.to_le_bytes());
        }
    }
    c
}

#[test]
fn roundtrip_polyline_and_polygon() {
    let pts = [(1.0, 2.0), (3.0, 4.0), (5.0, 6.0), (1.0, 2.0)];
    check_roundtrip(&parted_content(3, &[0, 2], None, &pts, &[]), ShapeType::PolyLine);
    check_roundtrip(&parted_content(5, &[0], None, &pts, &[]), ShapeType::Polygon);
    check_roundtrip(
        &parted_content(23, &[0], None, &pts, &[&[0.0, 9.0, 1.0, 2.0, 3.0, 9.0]]),
        ShapeType::PolyLineM,
    );
    check_roundtrip(
        &parted_content(15, &[0], None, &pts, &[&[0.0, 4.0, 1.0, 2.0, 3.0, 4.0]]),
        ShapeType::PolygonZ,
    );
    check_roundtrip(
        &parted_content(
            15,
            &[0],
            None,
            &pts,
            &[&[0.0, 4.0, 1.0, 2.0, 3.0, 4.0], &[0.0, 9.0, 5.0, 6.0, 7.0, 9.0]],
        ),
        ShapeType::PolygonZ,
    );
}

#[test]
fn roundtrip_multipatch() {
    let pts = [(1.0, 2.0), (3.0, 4.0), (5.0, 6.0)];
    // One triangle-strip part (part type 0), Z block, no measures.
    check_roundtrip(
        &parted_content(31, &[0], Some(&[0]), &pts, &[&[0.0, 4.0, 1.0, 2.0, 4.0]]),
        ShapeType::MultiPatch,
    );
}

#[test]
fn encoder_emits_declared_layout() {
    // The encoder alone: a polyline built in memory encodes to the exact
    // field sequence the decoder expects.
    let g = Geometry::PolyLine(PartedGeom {
        bbox: bbox(0.0, 0.0, 10.0, 10.0),
        parts: vec![0],
        points: vec![pt(1.0, 2.0), pt(3.0, 4.0)],
    });
    let enc = encode_geometry(&g);
    let expect = parted_content(3, &[0], None, &[(1.0, 2.0), (3.0, 4.0)], &[]);
    assert_eq!(enc, expect);
}

#[test]
fn encode_record_frames_content() {
    let g = Geometry::MultiPoint(MultiPointGeom {
        bbox: bbox(0.0, 0.0, 10.0, 10.0),
        points: vec![pt(1.0, 2.0)],
    });
    let rec = encode_record(7, &g).unwrap();
    assert_eq!(&rec[0..4], &7i32.to_be_bytes());
    let content = encode_geometry(&g);
    assert_eq!(&rec[4..8], &((content.len() / 2) as i32).to_be_bytes());
    assert_eq!(&rec[8..], content.as_slice());
    // And the framed record decodes back to the same geometry.
    match decode_record(&rec, 0, rec.len(), ShapeType::MultiPoint, &Config::default()) {
        RecordOutcome::Value { record, next } => {
            assert_eq!(record.record_number, 7);
            assert_eq!(record.geometry, g);
            assert_eq!(next, rec.len());
        }
        _ => panic!("expected a decoded record"),
    }
}

#[test]
fn encode_measure_block_layout() {
    let g = Geometry::MultiPointM {
        base: MultiPointGeom { bbox: bbox(0.0, 0.0, 10.0, 10.0), points: vec![pt(0.5, 0.5)] },
        m: MeasureBlock { min: bits(2.0), max: bits(2.0), values: vec![bits(2.0)] },
    };
    let enc = encode_geometry(&g);
    let expect = multipoint_content(28, &[(0.5, 0.5)], &[&[2.0, 2.0, 2.0]]);
    assert_eq!(enc, expect);
}
