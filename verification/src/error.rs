//! Error taxonomy and decoder configuration.
//!
//! Every invariant violation in the input maps to a distinct error value;
//! no decoding function panics or aborts on malformed bytes.

use vstd::prelude::*;

verus! {

/// The ways a shapefile header or record can be malformed.
#[derive(Clone, Copy, Debug, PartialEq, Eq, Structural)]
pub enum DecodeError {
    /// The header's `file_code` field is not the fixed magic value 9994.
    BadMagic,
    /// The header's `version` field is not 1000 while strict version
    /// checking is on.
    UnsupportedVersion,
    /// A shape-type code the format does not define.  Carries the code.
    UnknownShapeType(i32),
    /// A shape-type code the format defines but that is invalid where it
    /// stands: a non-null record shape differing from the file's declared
    /// shape type.  Carries the code.
    UnsupportedShapeType(i32),
    /// The input ended before a required field completed.
    TruncatedInput,
    /// A record's declared content length disagrees with the byte count its
    /// geometry layout requires.
    FramingMismatch,
    /// A part-start index that is out of range or breaks the non-decreasing
    /// order.
    InvalidPartIndex,
    /// A declared `num_parts` or `num_points` that is negative or exceeds the
    /// configured maximum.
    LimitExceeded,
}

/// Decoder options.
#[derive(Clone, Copy, Debug, PartialEq, Eq, Structural)]
pub struct Config {
    /// Fail with `UnsupportedVersion` when the header's version is not 1000.
    /// Off by default: an unexpected version is then accepted as is.
    pub strict_version: bool,
    /// Upper bound on a record's declared `num_parts`.
    pub max_parts: usize,
    /// Upper bound on a record's declared `num_points`.
    pub max_points: usize,
    /// Skip records of unknown shape type silently (resynchronizing by the
    /// framing fields) instead of yielding an error value for them.
    pub permissive_shape_dispatch: bool,
}

/// The default configuration: permissive version handling, a generous but
/// finite bound on declared array sizes, unknown shapes surfaced as errors.
pub open spec fn spec_default_config() -> Config {
    Config {
        strict_version: false,
        max_parts: 10_000_000,
        max_points: 10_000_000,
        permissive_shape_dispatch: false,
    }
}

impl Default for Config {
    fn default() -> (c: Config)
        ensures
            c == spec_default_config(),
    {
        Config {
            strict_version: false,
            max_parts: 10_000_000,
            max_points: 10_000_000,
            permissive_shape_dispatch: false,
        }
    }
}

} // verus!
