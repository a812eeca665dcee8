//! The rendering contract's input check: target pixel dimensions are
//! computed outside (page size times scale, rounded) and must be positive
//! before the rasterizer is invoked.
use vstd::prelude::*;

verus! {

/// The rasterizer cannot produce a buffer for the page.
#[derive(Clone, Copy, PartialEq, Eq, Structural, Debug)]
pub enum RenderError {
    /// The computed target dimensions were zero or negative.
    InvalidDimensions,
    /// The rasterizer itself failed on the page.
    Engine,
}

/// Check computed target dimensions before any rasterizer call: both must
/// be positive; the accepted values pass through unchanged.
pub fn validate_render_dimensions(width: i32, height: i32) -> (r: Result<(u32, u32), RenderError>)
    ensures
        width > 0 && height > 0 <==> r is Ok,
        r matches Ok(d) ==> d.0 as int == width as int && d.1 as int == height as int,
        r matches Err(e) ==> e is InvalidDimensions,
{
    if width > 0 && height > 0 {
        Ok((width as u32, height as u32))
    } else {
        Err(RenderError::InvalidDimensions)
    }
}

} // verus!
