//! Decoder for the Esri shapefile (`.shp`) geometry format.
//!
//! The library works on in-memory byte buffers: the caller supplies the raw
//! bytes of a `.shp` file and receives structured header and record values,
//! or precise error values for malformed input.  Floating-point coordinates
//! travel as their IEEE 754 bit patterns (`u64`), which keeps decoding and
//! re-encoding byte-exact; a consumer converts bit patterns to `f64` at the
//! edge.

pub mod bytes;
pub mod encode;
pub mod error;
pub mod geometry;
pub mod header;
pub mod record;
pub mod shape;
pub mod stream;
