//! Evenly spaced tile layouts for cropping fixed-size sub-images ("tiles")
//! out of a larger raster image.
//!
//! The library covers the parts of the pipeline that are pure computation:
//! the per-axis center/stride geometry, the row-major tile grid, the output
//! file names, and the accounting of a batch run. Decoding, cropping and
//! encoding of actual pixel data are left to the surrounding application.

use vstd::prelude::*;

pub mod batch;
pub mod geometry;
pub mod naming;
pub mod tiles;

verus! {

/// The ways a tiling request or a processing step can fail.
#[derive(Clone, Copy, Debug, PartialEq, Eq, Structural)]
pub enum TileError {
    /// The geometry request is malformed: zero segments, a zero tile side,
    /// or a tile larger than the image extent.
    InvalidInput,
    /// The source file could not be decoded as an image.
    DecodeError,
    /// A directory could not be listed or created.
    IoError,
    /// A single tile failed to encode or persist.
    EncodeWriteError,
}

impl TileError {
    /// A short label for the error, suitable for reports.
    pub fn describe(&self) -> (s: &'static str)
        ensures
            self is InvalidInput ==> s@ == "invalid geometry request"@,
            self is DecodeError ==> s@ == "source file could not be decoded"@,
            self is IoError ==> s@ == "directory could not be listed or created"@,
            self is EncodeWriteError ==> s@ == "tile could not be encoded or written"@,
    {
        match self {
            TileError::InvalidInput => "invalid geometry request",
            TileError::DecodeError => "source file could not be decoded",
            TileError::IoError => "directory could not be listed or created",
            TileError::EncodeWriteError => "tile could not be encoded or written",
        }
    }
}

} // verus!
