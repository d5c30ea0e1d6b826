//! Translation of path construction events into normalized drawing commands,
//! and transform-aware view-box computation, for an SVG writer.
//!
//! Path coordinates are carried as IEEE 754 binary32 bit patterns (`u32`),
//! which lets every decision the core makes — discontinuity repair,
//! bounds folding, the degenerate-canvas fallback, and the validity rules
//! of the target document model — be stated and verified exactly.
use vstd::prelude::*;

pub mod bounds;
pub mod path;
pub mod scalar;

verus! {

/// Marker for a writer that has no font source attached: text operations
/// are not available until fonts are supplied.
pub struct NoText;

/// Errors of the translation and bounds computation core.
///
/// The bounding-box variant reports the four folded bounds as binary32 bit
/// patterns, exactly as they were computed.
#[derive(Clone, Copy, PartialEq, Eq, Structural, Debug)]
pub enum LyonTranslationError {
    WrongBoundingBox { min_x: u32, max_x: u32, min_y: u32, max_y: u32 },
    NoFonts,
    SvgFailure,
    FontFailure,
}

} // verus!
