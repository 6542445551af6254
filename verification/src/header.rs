//! The fixed 100-byte file header.
//!
//! The header mixes endianness: the file code (magic) and file length are
//! big-endian, the version, shape type and bounding box little-endian.
//! Twenty reserved bytes after the magic are skipped without interpretation.

use vstd::prelude::*;
use crate::bytes::{be_i32_at, le_i32_at, le_u64_at, read_be_i32, read_le_i32, read_le_u64};
use crate::error::{Config, DecodeError};
use crate::geometry::BoundingBox;
use crate::shape::{spec_shape_of_code, ShapeType};

verus! {

/// The value the header's `file_code` field must hold.
pub const FILE_CODE_MAGIC: i32 = 9994;

/// The shapefile version this decoder understands.
pub const CURRENT_VERSION: i32 = 1000;

/// The exact byte length of the file header.
pub const HEADER_LEN: usize = 100;

/// The decoded file header.
#[derive(Clone, Copy, Debug, PartialEq, Eq, Structural)]
pub struct Header {
    /// Always 9994 in a decoded header.
    pub file_code: i32,
    /// Total file length in 16-bit words, counted from the file start.
    pub file_length: i32,
    pub version: i32,
    /// The file's declared dominant shape type.
    pub shape_type: ShapeType,
    pub bounding_box: BoundingBox,
}

/// The header bounding box found at byte offset `off`: eight little-endian
/// doubles in the order x_min, y_min, x_max, y_max, z_min, z_max, m_min,
/// m_max.
pub open spec fn spec_bbox_at(s: Seq<u8>, off: int) -> BoundingBox {
    BoundingBox {
        x_min: le_u64_at(s, off),
        y_min: le_u64_at(s, off + 8),
        x_max: le_u64_at(s, off + 16),
        y_max: le_u64_at(s, off + 24),
        z_min: le_u64_at(s, off + 32),
        z_max: le_u64_at(s, off + 40),
        m_min: le_u64_at(s, off + 48),
        m_max: le_u64_at(s, off + 56),
    }
}

/// What decoding the file header yields on byte sequence `s`.
///
/// The checks run in the order the fields stand in the file: magic first,
/// then (under `strict_version`) the version, then the shape-type code, and
/// a field that extends past the end of `s` stops with `TruncatedInput`.
pub open spec fn spec_decode_header(s: Seq<u8>, cfg: Config) -> Result<Header, DecodeError> {
    if s.len() < 4 {
        Err(DecodeError::TruncatedInput)
    } else if be_i32_at(s, 0) != FILE_CODE_MAGIC {
        Err(DecodeError::BadMagic)
    } else if s.len() < 32 {
        Err(DecodeError::TruncatedInput)
    } else if cfg.strict_version && le_i32_at(s, 28) != CURRENT_VERSION {
        Err(DecodeError::UnsupportedVersion)
    } else if s.len() < 36 {
        Err(DecodeError::TruncatedInput)
    } else {
        match spec_shape_of_code(le_i32_at(s, 32)) {
            None => Err(DecodeError::UnknownShapeType(le_i32_at(s, 32))),
            Some(st) => if s.len() < HEADER_LEN {
                Err(DecodeError::TruncatedInput)
            } else {
                Ok(
                    Header {
                        file_code: FILE_CODE_MAGIC,
                        file_length: be_i32_at(s, 24),
                        version: le_i32_at(s, 28),
                        shape_type: st,
                        bounding_box: spec_bbox_at(s, 36),
                    },
                )
            },
        }
    }
}

/// Decodes the 100-byte file header from the front of `data`.
///
/// Fails with `BadMagic` if and only if the first four bytes are readable
/// and are not the big-endian magic 9994; with `UnsupportedVersion` only
/// under `cfg.strict_version`; with `UnknownShapeType` on an undefined
/// shape-type code; with `TruncatedInput` when `data` ends before a needed
/// field.  On success the header occupies exactly the first `HEADER_LEN`
/// bytes and records begin at that offset.
pub fn decode_header(data: &Vec<u8>, cfg: &Config) -> (r: Result<Header, DecodeError>)
    ensures
        r == spec_decode_header(data@, *cfg),
        r is Ok ==> data@.len() >= HEADER_LEN,
{
    let n = data.len();
    if n < 4 {
        return Err(DecodeError::TruncatedInput);
    }
    let file_code = read_be_i32(data, 0);
    if file_code != FILE_CODE_MAGIC {
        return Err(DecodeError::BadMagic);
    }
    if n < 32 {
        return Err(DecodeError::TruncatedInput);
    }
    // Bytes 4..24 are reserved; their presence is all that is required.
    let file_length = read_be_i32(data, 24);
    let version = read_le_i32(data, 28);
    if cfg.strict_version && version != CURRENT_VERSION {
        return Err(DecodeError::UnsupportedVersion);
    }
    if n < 36 {
        return Err(DecodeError::TruncatedInput);
    }
    let shape_code = read_le_i32(data, 32);
    let shape_type = match ShapeType::from_i32(shape_code) {
        None => {
            return Err(DecodeError::UnknownShapeType(shape_code));
        },
        Some(st) => st,
    };
    if n < HEADER_LEN {
        return Err(DecodeError::TruncatedInput);
    }
    let bounding_box = BoundingBox {
        x_min: read_le_u64(data, 36),
        y_min: read_le_u64(data, 44),
        x_max: read_le_u64(data, 52),
        y_max: read_le_u64(data, 60),
        z_min: read_le_u64(data, 68),
        z_max: read_le_u64(data, 76),
        m_min: read_le_u64(data, 84),
        m_max: read_le_u64(data, 92),
    };
    Ok(Header { file_code, file_length, version, shape_type, bounding_box })
}

/// Input whose magic field is readable but not 9994 always decodes to
/// `BadMagic`, whatever the rest of the bytes hold and whatever the
/// configuration.
pub proof fn lemma_bad_magic_always_reported(s: Seq<u8>, cfg: Config)
    requires
        s.len() >= 4,
        be_i32_at(s, 0) != FILE_CODE_MAGIC,
    ensures
        spec_decode_header(s, cfg) == Err::<Header, DecodeError>(DecodeError::BadMagic),
{
}

/// The header is a function of the first 100 bytes alone: decoding a file
/// and decoding just its first 100 bytes agree, so a successful decode has
/// consumed exactly the 100 header bytes and left position 100 as the first
/// record boundary.
pub proof fn lemma_header_reads_only_first_100(s: Seq<u8>, cfg: Config)
    requires
        s.len() >= HEADER_LEN,
    ensures
        spec_decode_header(s, cfg) == spec_decode_header(s.subrange(0, HEADER_LEN as int), cfg),
{
    let h = s.subrange(0, HEADER_LEN as int);
    assert(be_i32_at(h, 0) == be_i32_at(s, 0));
    assert(be_i32_at(h, 24) == be_i32_at(s, 24));
    assert(le_i32_at(h, 28) == le_i32_at(s, 28));
    assert(le_i32_at(h, 32) == le_i32_at(s, 32));
    assert(spec_bbox_at(h, 36) == spec_bbox_at(s, 36));
}

} // verus!
