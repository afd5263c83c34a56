//! Extent of a caption in the display font.

use vstd::prelude::*;
use vstd::string::StringSliceAdditionalSpecFns;
use embedded_graphics::drawable::Dimensions;
use embedded_graphics::fonts::{Font, Font6x12};
use crate::geometry::Size;

verus! {

/// The bounding box of `text` in the 6x12 font: six pixels per byte wide and
/// twelve high, or nothing at all for an empty text.
pub open spec fn text_extent(text: &str) -> Size {
    let w = 6 * text.spec_bytes().len();
    Size { width: w as u32, height: if w > 0 { 12 } else { 0 } }
}

/// Relies on embedded_graphics' `Dimensions::size` of a `Font6x12` text,
/// which is `CHAR_WIDTH * text.len()` by `CHAR_HEIGHT` (or zero high when
/// that width is zero), with `CHAR_WIDTH` 6 and `CHAR_HEIGHT` 12.
#[verifier::external_body]
pub(crate) fn caption_size(text: &str) -> (r: Size)
    requires
        6 * text.spec_bytes().len() <= u32::MAX,
    ensures
        r == text_extent(text),
{
    let s = Font6x12::<u8>::render_str(text).size();
    Size { width: s.0, height: s.1 }
}

} // verus!
