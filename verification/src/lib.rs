//! Batch conversion of paginated documents into raster images: page-range
//! selection, vertical compositing, output naming, and a per-document
//! state machine that reports progress and status under partial failure.
use vstd::prelude::*;

pub mod page_range;
pub mod compositor;
pub mod encode;
pub mod naming;
pub mod pipeline;
pub mod pixels;
pub mod renderer;

verus! {

/// The two raster output formats the encoder supports.
#[derive(Clone, Copy, PartialEq, Eq, Structural, Debug)]
pub enum OutputFormat {
    Png,
    Jpeg,
}

} // verus!
