//! Text measurement, which a rendering backend supplies to layout.
use vstd::prelude::*;
use crate::layout::geometry::UiSize;

verus! {

/// Measures text for the layout solver, so that a rendering backend can
/// supply text metrics without its own types entering layout.
pub trait UiTextMeasurer {
    /// The size that `text` needs at `font_size`.
    fn measure_text(&self, text: &str, font_size: u32) -> UiSize;
}

} // verus!
