//! Where controls sit on the screen: buttons along the top row, knob cells
//! along the bottom.

use vstd::prelude::*;
use vstd::string::StringSliceAdditionalSpecFns;
use crate::button::caption_fits;
use crate::geometry::{fits, Point, Size};
use crate::knob::{KNOB_HEIGHT, KNOB_WIDTH};

verus! {

/// Top edge of the button row.
pub const BUTTON_POS_Y: i32 = 0;

/// Top edge of the knob row.
pub const KNOB_POS_Y: i32 = 40;

/// Number of button slots, one above each physical button.
pub const BUTTON_SLOTS: usize = 5;

/// Number of knob slots, one above each encoder.
pub const KNOB_SLOTS: usize = 4;

pub open spec fn button_pos_spec(slot: int) -> Point {
    Point {
        x: if slot == 0 { 0 } else if slot == 1 { 26 } else if slot == 2 { 51 } else if slot == 3 { 77 } else { 102 },
        y: BUTTON_POS_Y,
    }
}

pub open spec fn knob_pos_spec(slot: int) -> Point {
    Point { x: (32 * slot) as i32, y: KNOB_POS_Y }
}

/// Top left corner of button slot `slot`.
pub fn button_pos(slot: usize) -> (r: Point)
    requires
        slot < BUTTON_SLOTS,
    ensures
        r == button_pos_spec(slot as int),
{
    let x: i32 = if slot == 0 {
        0
    } else if slot == 1 {
        26
    } else if slot == 2 {
        51
    } else if slot == 3 {
        77
    } else {
        102
    };
    Point { x, y: BUTTON_POS_Y }
}

/// Top left corner of knob slot `slot`.
pub fn knob_pos(slot: usize) -> (r: Point)
    requires
        slot < KNOB_SLOTS,
    ensures
        r == knob_pos_spec(slot as int),
        fits((r, Size { width: KNOB_WIDTH, height: KNOB_HEIGHT })),
{
    Point { x: 32 * slot as i32, y: KNOB_POS_Y }
}

/// An ASCII caption of at most eight characters fits in every button slot.
pub proof fn lemma_short_caption_fits(caption: &str, slot: int)
    requires
        vstd::string::is_ascii(caption),
        caption@.len() <= 8,
        0 <= slot < BUTTON_SLOTS,
    ensures
        caption_fits(button_pos_spec(slot), caption),
{
    vstd::string::is_ascii_spec_bytes(caption);
    assert(caption.spec_bytes().len() == caption@.len());
}

} // verus!
